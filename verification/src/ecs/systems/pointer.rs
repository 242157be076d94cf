//! Folding of pointer events: of a burst only the newest place counts, and of
//! distances only their run. Distances are carried along unread, in their order,
//! so that whoever adds them up gets the same sum.
use vstd::prelude::*;

verus! {

/// An event as the pump sees it. The pointer's places and all other events are
/// known by a number; distances and vertical ticks are carried as they are.
#[derive(Clone, Copy, Debug, PartialEq, Eq, Structural)]
pub enum PumpEvent {
    Moved(u64),
    Dragged(u64),
    Scroll(u64),
    Swipe { delta: u64, fingers: usize },
    VerticalSwipe { delta: u64, fingers: usize },
    VerticalTick(u64),
    /// A press, a release, a command: nothing may pass it.
    Other(u64),
}

/// An event after folding; a run of distances has its parts in their order.
#[derive(Debug)]
pub enum Folded {
    Moved(u64),
    Dragged(u64),
    Scroll(Vec<u64>),
    Swipe { parts: Vec<u64>, fingers: usize },
    VerticalSwipe { parts: Vec<u64>, fingers: usize },
    VerticalTick(Vec<u64>),
    Other(u64),
}

#[verifier::ext_equal]
pub enum FoldedView {
    Moved(u64),
    Dragged(u64),
    Scroll(Seq<u64>),
    Swipe { parts: Seq<u64>, fingers: usize },
    VerticalSwipe { parts: Seq<u64>, fingers: usize },
    VerticalTick(Seq<u64>),
    Other(u64),
}

impl View for Folded {
    type V = FoldedView;

    open spec fn view(&self) -> FoldedView {
        match *self {
            Folded::Moved(event) => FoldedView::Moved(event),
            Folded::Dragged(event) => FoldedView::Dragged(event),
            Folded::Scroll(parts) => FoldedView::Scroll(parts@),
            Folded::Swipe { parts, fingers } => FoldedView::Swipe { parts: parts@, fingers },
            Folded::VerticalSwipe { parts, fingers } => FoldedView::VerticalSwipe {
                parts: parts@,
                fingers,
            },
            Folded::VerticalTick(parts) => FoldedView::VerticalTick(parts@),
            Folded::Other(event) => FoldedView::Other(event),
        }
    }
}

/// Folded events, each by its view.
pub open spec fn views(events: Seq<Folded>) -> Seq<FoldedView> {
    Seq::new(events.len(), |i: int| events[i]@)
}

/// A run of distances of one swipe, and its fingers.
pub struct Run {
    pub parts: Vec<u64>,
    pub fingers: usize,
}

/// Pointer motion that is held back until something ends it.
pub struct CoalescedPointer {
    pub moved: Option<u64>,
    pub dragged: Option<u64>,
    pub scroll: Vec<u64>,
    pub swipe: Option<Run>,
    pub vertical_swipe: Option<Run>,
    pub vertical_tick: Vec<u64>,
}

#[verifier::ext_equal]
pub struct RunView {
    pub parts: Seq<u64>,
    pub fingers: usize,
}

#[verifier::ext_equal]
pub struct PointerView {
    pub moved: Option<u64>,
    pub dragged: Option<u64>,
    pub scroll: Seq<u64>,
    pub swipe: Option<RunView>,
    pub vertical_swipe: Option<RunView>,
    pub vertical_tick: Seq<u64>,
}

pub open spec fn run_view(run: Option<Run>) -> Option<RunView> {
    match run {
        Some(run) => Some(RunView { parts: run.parts@, fingers: run.fingers }),
        None => None,
    }
}

impl View for CoalescedPointer {
    type V = PointerView;

    open spec fn view(&self) -> PointerView {
        PointerView {
            moved: self.moved,
            dragged: self.dragged,
            scroll: self.scroll@,
            swipe: run_view(self.swipe),
            vertical_swipe: run_view(self.vertical_swipe),
            vertical_tick: self.vertical_tick@,
        }
    }
}

/// Nothing is held back.
pub open spec fn nothing_held() -> PointerView {
    PointerView {
        moved: None,
        dragged: None,
        scroll: Seq::empty(),
        swipe: None,
        vertical_swipe: None,
        vertical_tick: Seq::empty(),
    }
}

/// A held run as a folded event.
pub open spec fn swipe_out(run: Option<RunView>, vertical: bool) -> Seq<FoldedView> {
    match run {
        Some(run) => if vertical {
            seq![FoldedView::VerticalSwipe { parts: run.parts, fingers: run.fingers }]
        } else {
            seq![FoldedView::Swipe { parts: run.parts, fingers: run.fingers }]
        },
        None => Seq::empty(),
    }
}

/// A held place of the pointer as a folded event.
pub open spec fn place_out(place: Option<u64>, dragged: bool) -> Seq<FoldedView> {
    match place {
        Some(event) => if dragged {
            seq![FoldedView::Dragged(event)]
        } else {
            seq![FoldedView::Moved(event)]
        },
        None => Seq::empty(),
    }
}

/// Held distances as a folded event.
pub open spec fn parts_out(parts: Seq<u64>, vertical: bool) -> Seq<FoldedView> {
    if parts.len() == 0 {
        Seq::empty()
    } else if vertical {
        seq![FoldedView::VerticalTick(parts)]
    } else {
        seq![FoldedView::Scroll(parts)]
    }
}

/// Everything that is held back, in the order in which it is let go.
pub open spec fn let_go(held: PointerView) -> Seq<FoldedView> {
    place_out(held.moved, false) + place_out(held.dragged, true) + parts_out(held.scroll, false)
        + swipe_out(held.swipe, false) + swipe_out(held.vertical_swipe, true) + parts_out(
        held.vertical_tick,
        true,
    )
}

/// A run with one distance more; other fingers start a new run.
pub open spec fn run_with(run: Option<RunView>, delta: u64, fingers: usize) -> RunView {
    match run {
        Some(run) if run.fingers == fingers => RunView { parts: run.parts.push(delta), fingers },
        _ => RunView { parts: seq![delta], fingers },
    }
}

/// The run that a distance with these fingers ends.
pub open spec fn run_ended(run: Option<RunView>, fingers: usize) -> Option<RunView> {
    match run {
        Some(run) if run.fingers == fingers => None,
        other => other,
    }
}

/// What is held back after an event.
pub open spec fn held_after(held: PointerView, event: PumpEvent) -> PointerView {
    match event {
        PumpEvent::Moved(event) => PointerView { moved: Some(event), ..held },
        PumpEvent::Dragged(event) => PointerView { dragged: Some(event), ..held },
        PumpEvent::Scroll(delta) => PointerView { scroll: held.scroll.push(delta), ..held },
        PumpEvent::Swipe { delta, fingers } => PointerView {
            swipe: Some(run_with(held.swipe, delta, fingers)),
            ..held
        },
        PumpEvent::VerticalSwipe { delta, fingers } => PointerView {
            vertical_swipe: Some(run_with(held.vertical_swipe, delta, fingers)),
            ..held
        },
        PumpEvent::VerticalTick(delta) => PointerView {
            vertical_tick: held.vertical_tick.push(delta),
            ..held
        },
        PumpEvent::Other(_) => nothing_held(),
    }
}

/// What an event lets go.
pub open spec fn let_go_by(held: PointerView, event: PumpEvent) -> Seq<FoldedView> {
    match event {
        PumpEvent::Swipe { delta, fingers } => swipe_out(run_ended(held.swipe, fingers), false),
        PumpEvent::VerticalSwipe { delta, fingers } => swipe_out(
            run_ended(held.vertical_swipe, fingers),
            true,
        ),
        PumpEvent::Other(event) => let_go(held).push(FoldedView::Other(event)),
        _ => Seq::empty(),
    }
}

impl Default for CoalescedPointer {
    fn default() -> (pointer: CoalescedPointer)
        ensures
            pointer@ == nothing_held(),
    {
        CoalescedPointer {
            moved: None,
            dragged: None,
            scroll: Vec::new(),
            swipe: None,
            vertical_swipe: None,
            vertical_tick: Vec::new(),
        }
    }
}

fn emit(events: &mut Vec<Folded>, event: Folded)
    ensures
        views(final(events)@) == views(old(events)@).push(event@),
{
    let ghost before = events@;
    events.push(event);
    assert(views(events@) =~= views(before).push(event@));
}

fn emit_run(events: &mut Vec<Folded>, run: Option<Run>, vertical: bool)
    ensures
        views(final(events)@) == views(old(events)@) + swipe_out(run_view(run), vertical),
{
    if let Some(run) = run {
        if vertical {
            emit(events, Folded::VerticalSwipe { parts: run.parts, fingers: run.fingers });
        } else {
            emit(events, Folded::Swipe { parts: run.parts, fingers: run.fingers });
        }
    }
    assert(views(events@) =~= views(old(events)@) + swipe_out(run_view(run), vertical));
}

fn emit_place(events: &mut Vec<Folded>, place: Option<u64>, dragged: bool)
    ensures
        views(final(events)@) == views(old(events)@) + place_out(place, dragged),
{
    if let Some(number) = place {
        if dragged {
            emit(events, Folded::Dragged(number));
        } else {
            emit(events, Folded::Moved(number));
        }
    }
    assert(views(events@) =~= views(old(events)@) + place_out(place, dragged));
}

fn emit_parts(events: &mut Vec<Folded>, held: &mut Vec<u64>, vertical: bool)
    ensures
        final(held)@ == Seq::<u64>::empty(),
        views(final(events)@) == views(old(events)@) + parts_out(old(held)@, vertical),
{
    if held.len() > 0 {
        let mut parts: Vec<u64> = Vec::new();
        parts.append(held);
        assert(parts@ =~= old(held)@);
        if vertical {
            emit(events, Folded::VerticalTick(parts));
        } else {
            emit(events, Folded::Scroll(parts));
        }
    }
    assert(held@ =~= Seq::<u64>::empty());
    assert(views(events@) =~= views(old(events)@) + parts_out(old(held)@, vertical));
}

proof fn lemma_chain<A>(o: Seq<A>, a: Seq<A>, b: Seq<A>, c: Seq<A>, d: Seq<A>, e: Seq<A>, f: Seq<A>)
    ensures
        o + a + b + c + d + e + f == o + (a + b + c + d + e + f),
{
    assert(o + a + b + c + d + e + f =~= o + (a + b + c + d + e + f));
}

fn fold_swipe(run: Option<Run>, events: &mut Vec<Folded>, delta: u64, fingers: usize, vertical: bool) -> (
    now: Option<Run>)
    ensures
        run_view(now) == Some(run_with(run_view(run), delta, fingers)),
        views(final(events)@) == views(old(events)@) + swipe_out(
            run_ended(run_view(run), fingers),
            vertical,
        ),
{
    if let Some(run) = run {
        if run.fingers == fingers {
            let mut parts = run.parts;
            parts.push(delta);
            assert(views(events@) =~= views(old(events)@) + Seq::<FoldedView>::empty());
            return Some(Run { parts, fingers });
        }
        emit_run(events, Some(run), vertical);
    } else {
        assert(views(events@) =~= views(old(events)@) + Seq::<FoldedView>::empty());
    }
    let mut parts: Vec<u64> = Vec::new();
    parts.push(delta);
    assert(parts@ =~= seq![delta]);
    Some(Run { parts, fingers })
}

impl CoalescedPointer {
    /// Takes an event in. Motion waits, newest places and whole runs; anything
    /// else first lets go what waits, so that nothing passes it.
    pub fn push(&mut self, events: &mut Vec<Folded>, event: PumpEvent)
        ensures
            final(self)@ == held_after(old(self)@, event),
            views(final(events)@) == views(old(events)@) + let_go_by(old(self)@, event),
    {
        match event {
            PumpEvent::Moved(number) => {
                self.moved = Some(number);
            },
            PumpEvent::Dragged(number) => {
                self.dragged = Some(number);
            },
            PumpEvent::Scroll(delta) => {
                self.scroll.push(delta);
            },
            PumpEvent::Swipe { delta, fingers } => {
                let run = self.swipe.take();
                self.swipe = fold_swipe(run, events, delta, fingers, false);
            },
            PumpEvent::VerticalSwipe { delta, fingers } => {
                let run = self.vertical_swipe.take();
                self.vertical_swipe = fold_swipe(run, events, delta, fingers, true);
            },
            PumpEvent::VerticalTick(delta) => {
                self.vertical_tick.push(delta);
            },
            PumpEvent::Other(number) => {
                self.flush(events);
                emit(events, Folded::Other(number));
            },
        }
        assert(self@ =~= held_after(old(self)@, event));
        assert(views(events@) =~= views(old(events)@) + let_go_by(old(self)@, event));
    }

    /// Lets go everything that waits.
    pub fn flush(&mut self, events: &mut Vec<Folded>)
        ensures
            final(self)@ == nothing_held(),
            views(final(events)@) == views(old(events)@) + let_go(old(self)@),
    {
        emit_place(events, self.moved, false);
        self.moved = None;
        emit_place(events, self.dragged, true);
        self.dragged = None;
        emit_parts(events, &mut self.scroll, false);
        emit_run(events, self.swipe.take(), false);
        emit_run(events, self.vertical_swipe.take(), true);
        emit_parts(events, &mut self.vertical_tick, true);
        proof {
            let held = old(self)@;
            lemma_chain(
                views(old(events)@),
                place_out(held.moved, false),
                place_out(held.dragged, true),
                parts_out(held.scroll, false),
                swipe_out(held.swipe, false),
                swipe_out(held.vertical_swipe, true),
                parts_out(held.vertical_tick, true),
            );
        }
    }
}

/// What is held back and what was let go, after the first `n` events.
pub open spec fn folded_to(events: Seq<PumpEvent>, n: int) -> (PointerView, Seq<FoldedView>)
    decreases n,
{
    if n <= 0 {
        (nothing_held(), Seq::empty())
    } else {
        let (held, out) = folded_to(events, n - 1);
        (held_after(held, events[n - 1]), out + let_go_by(held, events[n - 1]))
    }
}

/// A folded batch, with nothing held back any more.
pub open spec fn folded(events: Seq<PumpEvent>) -> Seq<FoldedView> {
    let (held, out) = folded_to(events, events.len() as int);
    out + let_go(held)
}

/// The scrolled distances of the first `n` events.
pub open spec fn scrolled(events: Seq<PumpEvent>, n: int) -> Seq<u64>
    decreases n,
{
    if n <= 0 {
        Seq::empty()
    } else {
        match events[n - 1] {
            PumpEvent::Scroll(delta) => scrolled(events, n - 1).push(delta),
            _ => scrolled(events, n - 1),
        }
    }
}

/// The scrolled distances of folded events.
pub open spec fn scrolled_out(out: Seq<FoldedView>) -> Seq<u64>
    decreases out.len(),
{
    if out.len() == 0 {
        Seq::empty()
    } else {
        match out.last() {
            FoldedView::Scroll(parts) => scrolled_out(out.drop_last()) + parts,
            _ => scrolled_out(out.drop_last()),
        }
    }
}

/// The swiped distances of the first `n` events, each with its fingers.
pub open spec fn swiped(events: Seq<PumpEvent>, n: int) -> Seq<(u64, usize)>
    decreases n,
{
    if n <= 0 {
        Seq::empty()
    } else {
        match events[n - 1] {
            PumpEvent::Swipe { delta, fingers } => swiped(events, n - 1).push((delta, fingers)),
            _ => swiped(events, n - 1),
        }
    }
}

/// The parts of a run, each with its fingers.
pub open spec fn fingered(parts: Seq<u64>, fingers: usize) -> Seq<(u64, usize)> {
    Seq::new(parts.len(), |i: int| (parts[i], fingers))
}

/// The swiped distances of folded events, each with its fingers.
pub open spec fn swiped_out(out: Seq<FoldedView>) -> Seq<(u64, usize)>
    decreases out.len(),
{
    if out.len() == 0 {
        Seq::empty()
    } else {
        match out.last() {
            FoldedView::Swipe { parts, fingers } => swiped_out(out.drop_last()) + fingered(
                parts,
                fingers,
            ),
            _ => swiped_out(out.drop_last()),
        }
    }
}

/// The events of the first `n` that nothing may pass.
pub open spec fn boundaries(events: Seq<PumpEvent>, n: int) -> Seq<u64>
    decreases n,
{
    if n <= 0 {
        Seq::empty()
    } else {
        match events[n - 1] {
            PumpEvent::Other(event) => boundaries(events, n - 1).push(event),
            _ => boundaries(events, n - 1),
        }
    }
}

pub open spec fn boundaries_out(out: Seq<FoldedView>) -> Seq<u64>
    decreases out.len(),
{
    if out.len() == 0 {
        Seq::empty()
    } else {
        match out.last() {
            FoldedView::Other(event) => boundaries_out(out.drop_last()).push(event),
            _ => boundaries_out(out.drop_last()),
        }
    }
}

proof fn lemma_out_concat(a: Seq<FoldedView>, b: Seq<FoldedView>)
    ensures
        scrolled_out(a + b) == scrolled_out(a) + scrolled_out(b),
        swiped_out(a + b) == swiped_out(a) + swiped_out(b),
        boundaries_out(a + b) == boundaries_out(a) + boundaries_out(b),
    decreases b.len(),
{
    if b.len() == 0 {
        assert(a + b =~= a);
        assert(scrolled_out(a + b) =~= scrolled_out(a) + scrolled_out(b));
        assert(swiped_out(a + b) =~= swiped_out(a) + swiped_out(b));
        assert(boundaries_out(a + b) =~= boundaries_out(a) + boundaries_out(b));
    } else {
        lemma_out_concat(a, b.drop_last());
        assert((a + b).drop_last() =~= a + b.drop_last());
        assert((a + b).last() == b.last());
        assert(scrolled_out(a + b) =~= scrolled_out(a) + scrolled_out(b));
        assert(swiped_out(a + b) =~= swiped_out(a) + swiped_out(b));
        assert(boundaries_out(a + b) =~= boundaries_out(a) + boundaries_out(b));
    }
}

/// The swiped distances that are held back.
pub open spec fn swiped_held(held: PointerView) -> Seq<(u64, usize)> {
    match held.swipe {
        Some(run) => fingered(run.parts, run.fingers),
        None => Seq::empty(),
    }
}

proof fn lemma_single_out(event: FoldedView)
    ensures
        scrolled_out(seq![event]) == (match event {
            FoldedView::Scroll(parts) => parts,
            _ => Seq::empty(),
        }),
        swiped_out(seq![event]) == (match event {
            FoldedView::Swipe { parts, fingers } => fingered(parts, fingers),
            _ => Seq::empty(),
        }),
        boundaries_out(seq![event]) == (match event {
            FoldedView::Other(event) => seq![event],
            _ => Seq::empty(),
        }),
{
    let out = seq![event];
    assert(out.drop_last() =~= Seq::<FoldedView>::empty());
    assert(out.last() == event);
    assert(scrolled_out(out.drop_last()) =~= Seq::<u64>::empty());
    assert(swiped_out(out.drop_last()) =~= Seq::<(u64, usize)>::empty());
    assert(boundaries_out(out.drop_last()) =~= Seq::<u64>::empty());
    assert(scrolled_out(out) =~= (match event {
        FoldedView::Scroll(parts) => parts,
        _ => Seq::empty(),
    }));
    assert(swiped_out(out) =~= (match event {
        FoldedView::Swipe { parts, fingers } => fingered(parts, fingers),
        _ => Seq::empty(),
    }));
    assert(boundaries_out(out) =~= (match event {
        FoldedView::Other(event) => seq![event],
        _ => Seq::empty(),
    }));
}

proof fn lemma_swipe_out(run: Option<RunView>, vertical: bool)
    ensures
        scrolled_out(swipe_out(run, vertical)) == Seq::<u64>::empty(),
        boundaries_out(swipe_out(run, vertical)) == Seq::<u64>::empty(),
        swiped_out(swipe_out(run, vertical)) == (match run {
            Some(run) if !vertical => fingered(run.parts, run.fingers),
            _ => Seq::empty(),
        }),
{
    if let Some(run) = run {
        if vertical {
            lemma_single_out(
                FoldedView::VerticalSwipe { parts: run.parts, fingers: run.fingers },
            );
        } else {
            lemma_single_out(FoldedView::Swipe { parts: run.parts, fingers: run.fingers });
        }
    }
}

proof fn lemma_let_go(held: PointerView)
    ensures
        scrolled_out(let_go(held)) == held.scroll,
        swiped_out(let_go(held)) == swiped_held(held),
        boundaries_out(let_go(held)) == Seq::<u64>::empty(),
{
    let moved = place_out(held.moved, false);
    let dragged = place_out(held.dragged, true);
    let scroll = parts_out(held.scroll, false);
    let swipe = swipe_out(held.swipe, false);
    let vertical = swipe_out(held.vertical_swipe, true);
    let tick = parts_out(held.vertical_tick, true);
    if let Some(event) = held.moved {
        lemma_single_out(FoldedView::Moved(event));
    }
    if let Some(event) = held.dragged {
        lemma_single_out(FoldedView::Dragged(event));
    }
    if held.scroll.len() > 0 {
        lemma_single_out(FoldedView::Scroll(held.scroll));
    }
    if held.vertical_tick.len() > 0 {
        lemma_single_out(FoldedView::VerticalTick(held.vertical_tick));
    }
    lemma_swipe_out(held.swipe, false);
    lemma_swipe_out(held.vertical_swipe, true);
    lemma_out_concat(moved, dragged);
    lemma_out_concat(moved + dragged, scroll);
    lemma_out_concat(moved + dragged + scroll, swipe);
    lemma_out_concat(moved + dragged + scroll + swipe, vertical);
    lemma_out_concat(moved + dragged + scroll + swipe + vertical, tick);
    assert(scrolled_out(let_go(held)) =~= held.scroll);
    assert(swiped_out(let_go(held)) =~= swiped_held(held));
    assert(boundaries_out(let_go(held)) =~= Seq::<u64>::empty());
}

proof fn lemma_folded_to(events: Seq<PumpEvent>, n: int)
    requires
        0 <= n <= events.len(),
    ensures
        ({
            let (held, out) = folded_to(events, n);
            &&& scrolled_out(out) + held.scroll == scrolled(events, n)
            &&& swiped_out(out) + swiped_held(held) == swiped(events, n)
            &&& boundaries_out(out) == boundaries(events, n)
        }),
    decreases n,
{
    if n <= 0 {
        let (held, out) = folded_to(events, n);
        assert(scrolled_out(out) + held.scroll =~= scrolled(events, n));
        assert(swiped_out(out) + swiped_held(held) =~= swiped(events, n));
    } else {
        lemma_folded_to(events, n - 1);
        let (held, out) = folded_to(events, n - 1);
        let event = events[n - 1];
        let gone = let_go_by(held, event);
        let after = held_after(held, event);
        lemma_out_concat(out, gone);
        match event {
            PumpEvent::Swipe { delta, fingers } => {
                lemma_swipe_out(run_ended(held.swipe, fingers), false);
            },
            PumpEvent::VerticalSwipe { delta, fingers } => {
                lemma_swipe_out(run_ended(held.vertical_swipe, fingers), true);
            },
            PumpEvent::Other(number) => {
                lemma_let_go(held);
                lemma_single_out(FoldedView::Other(number));
                lemma_out_concat(let_go(held), seq![FoldedView::Other(number)]);
                assert(let_go(held).push(FoldedView::Other(number)) =~= let_go(held)
                    + seq![FoldedView::Other(number)]);
            },
            _ => {},
        }
        assert(scrolled_out(out + gone) + after.scroll =~= scrolled(events, n));
        assert(swiped_out(out + gone) + swiped_held(after) =~= swiped(events, n));
        assert(boundaries_out(out + gone) =~= boundaries(events, n));
    }
}

/// Folding loses no travel and moves no boundary: the scrolled distances come
/// out as they went in, so do the swiped ones with their fingers, and so do the
/// events that nothing may pass.
pub proof fn folding_loses_no_travel(events: Seq<PumpEvent>)
    ensures
        scrolled_out(folded(events)) == scrolled(events, events.len() as int),
        swiped_out(folded(events)) == swiped(events, events.len() as int),
        boundaries_out(folded(events)) == boundaries(events, events.len() as int),
{
    let (held, out) = folded_to(events, events.len() as int);
    lemma_folded_to(events, events.len() as int);
    lemma_let_go(held);
    lemma_out_concat(out, let_go(held));
    assert(boundaries_out(folded(events)) =~= boundaries(events, events.len() as int));
}

/// Nothing that came before a boundary is still held back after it.
pub proof fn boundaries_let_everything_go(held: PointerView, number: u64)
    ensures
        held_after(held, PumpEvent::Other(number)) == nothing_held(),
        let_go_by(held, PumpEvent::Other(number)).last() == FoldedView::Other(number),
{
}

} // verus!
