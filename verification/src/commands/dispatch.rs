//! Which handler gets a command, which display lies that way, and which setting counts.
use vstd::prelude::*;

use crate::commands::{operations_to, sort_of, Command, Direction, Operation, OperationSort};
use crate::config::WindowParams;
use crate::ecs::params::{beyond, nearer, nearest_beyond, DisplaySnapshot};
use crate::ecs::{
    dont_focus_setting, floating_setting, horizontal_setting, index_setting, passthrough_to,
    vertical_setting,
};
use crate::geometry::IRect;
use crate::seqs::{lemma_either, lemma_pushed};

verus! {

/// A handler gets every command of its sort, in their order, and no other.
pub proof fn handlers_get_their_commands(
    commands: Seq<Command>,
    sort: OperationSort,
    n: int,
    operation: Operation,
)
    requires
        0 <= n <= commands.len(),
    ensures
        operations_to(commands, sort, n).contains(operation) <==> sort_of(operation) == sort
            && commands.take(n).contains(Command::Window(operation)),
    decreases n,
{
    if n > 0 {
        handlers_get_their_commands(commands, sort, n - 1, operation);
        assert(commands.take(n) =~= commands.take(n - 1).push(commands[n - 1]));
        lemma_pushed(commands.take(n - 1), commands[n - 1], Command::Window(operation));
        if let Command::Window(last) = commands[n - 1] {
            lemma_pushed(operations_to(commands, sort, n - 1), last, operation);
        }
    } else {
        assert(commands.take(0).len() == 0);
    }
}

/// A direction and its opposite are each other's opposite, and differ, but for a counted
/// column.
pub proof fn opposites_turn_back(direction: Direction)
    ensures
        direction.reversed().reversed() == direction,
        direction.reversed() == direction <==> direction is Nth,
        Direction::North.reversed() == Direction::South,
        Direction::East.reversed() == Direction::West,
        Direction::First.reversed() == Direction::Last,
{
}

/// A display above begins higher, and one below lower; the one found is no further away
/// than any other that way.
pub proof fn displays_beyond_are_the_nearest(
    bounds: IRect,
    others: Seq<DisplaySnapshot>,
    north: bool,
    at: int,
    k: int,
)
    requires
        nearest_beyond(bounds, others, north, at),
        0 <= k < others.len(),
    ensures
        ({
            let found = others[at].1;
            let other = others[k].1;
            &&& north ==> found.min.y < bounds.min.y
            &&& !north ==> found.min.y > bounds.min.y
            &&& north && other.min.y < bounds.min.y ==> other.min.y <= found.min.y
            &&& !north && other.min.y > bounds.min.y ==> other.min.y >= found.min.y
        }),
{
    assert(beyond(bounds, others[k].1, north) ==> !nearer(bounds, others[k], others[at]));
}

/// Of several settings, the first that says something counts, and where none does
/// nothing is said.
pub proof fn the_first_setting_counts(params: Seq<WindowParams>, k: int)
    requires
        0 <= k < params.len(),
    ensures
        (forall|j: int| 0 <= j < k ==> (#[trigger] params[j]).floating is None)
            && params[k].floating is Some ==> floating_setting(params) == params[k].floating,
        (forall|j: int| 0 <= j < k ==> (#[trigger] params[j]).index is None) && params[k].index
            is Some ==> index_setting(params) == params[k].index,
        (forall|j: int| 0 <= j < k ==> (#[trigger] params[j]).dont_focus is None)
            && params[k].dont_focus is Some ==> dont_focus_setting(params) == params[k].dont_focus,
        (forall|j: int| 0 <= j < k ==> (#[trigger] params[j]).vertical_padding is None)
            && params[k].vertical_padding is Some ==> vertical_setting(params)
            == params[k].vertical_padding,
        (forall|j: int| 0 <= j < k ==> (#[trigger] params[j]).horizontal_padding is None)
            && params[k].horizontal_padding is Some ==> horizontal_setting(params)
            == params[k].horizontal_padding,
    decreases k,
{
    if k > 0 {
        let rest = params.drop_first();
        the_first_setting_counts(rest, k - 1);
        assert(rest[k - 1] == params[k]);
        assert(params[0] == params[0]);
        assert forall|j: int| 0 <= j < k - 1 implies #[trigger] rest[j] == params[j + 1] by {}
    }
}

/// Every key of every setting is passed through.
pub proof fn every_key_is_passed_through(params: Seq<WindowParams>, n: int, k: int, key: (u8, u32))
    requires
        0 <= k < n <= params.len(),
        params[k].passthrough@.contains(key),
    ensures
        passthrough_to(params, n).contains(key),
    decreases n,
{
    lemma_either(passthrough_to(params, n - 1), params[n - 1].passthrough@, key);
    if k < n - 1 {
        every_key_is_passed_through(params, n - 1, k, key);
    }
}

/// Every sort of command has its own operations: those that resize by width, those that go
/// to another display, and those that change the virtual strip share a sort, and no other
/// two do.
pub proof fn sorts_keep_operations_apart(operation: Operation)
    ensures
        operation is Focus <==> sort_of(operation) == OperationSort::Focus,
        operation is FocusUnmanaged <==> sort_of(operation) == OperationSort::FocusUnmanaged,
        operation is FocusManaged <==> sort_of(operation) == OperationSort::FocusManaged,
        operation is RaiseFloating <==> sort_of(operation) == OperationSort::RaiseFloating,
        operation is ToggleFloatingLayer <==> sort_of(operation)
            == OperationSort::ToggleFloatingLayer,
        operation is Swap <==> sort_of(operation) == OperationSort::Swap,
        operation is Center <==> sort_of(operation) == OperationSort::Center,
        operation is Resize || operation is SetWidth <==> sort_of(operation) == OperationSort::Width,
        operation is ResizeVertical <==> sort_of(operation) == OperationSort::Height,
        operation is FullWidth <==> sort_of(operation) == OperationSort::FullWidth,
        operation is Manage <==> sort_of(operation) == OperationSort::Manage,
        operation is CopyRule <==> sort_of(operation) == OperationSort::CopyRule,
        operation is ToNextDisplay || operation is ToPreviousDisplay <==> sort_of(operation)
            == OperationSort::ToDisplay,
        operation is Equalize <==> sort_of(operation) == OperationSort::Equalize,
        operation is Balance <==> sort_of(operation) == OperationSort::Balance,
        operation is Snap <==> sort_of(operation) == OperationSort::Snap,
        operation is Stack <==> sort_of(operation) == OperationSort::Stack,
        operation is Virtual || operation is FocusOrVirtual <==> sort_of(operation)
            == OperationSort::Virtual,
{
}

} // verus!
