//! The scope model: layers that bind names to storage slots, and the frame
//! that stacks them and hands out fresh slots.

use vstd::prelude::*;
use crate::mips::{reserve, reserve_text};

verus! {

/// What a layer holds: its bindings in the order in which they were made.
pub type Bindings = Seq<(Seq<char>, usize)>;

/// The slot that `entries` binds `name` to: the latest binding of that name.
pub open spec fn lookup(entries: Bindings, name: Seq<char>) -> Option<usize>
    decreases entries.len(),
{
    if entries.len() == 0 {
        None
    } else if entries.last().0 == name {
        Some(entries.last().1)
    } else {
        lookup(entries.drop_last(), name)
    }
}

/// The slot that the enclosing layers bind `name` to, the innermost of them
/// searched first.
pub open spec fn outer_lookup(layers: Seq<Bindings>, name: Seq<char>) -> Option<usize>
    decreases layers.len(),
{
    if layers.len() == 0 {
        None
    } else {
        match lookup(layers.last(), name) {
            Some(slot) => Some(slot),
            None => outer_lookup(layers.drop_last(), name),
        }
    }
}

/// No name is bound twice.
pub open spec fn distinct_names(entries: Bindings) -> bool {
    forall|i: int, j: int|
        0 <= i < entries.len() && 0 <= j < entries.len() && i != j ==> (#[trigger] entries[i]).0 != (
        #[trigger] entries[j]).0
}

/// One lexical layer: a mapping from names to slots. No name is bound twice.
#[derive(Debug)]
pub struct FrameLayer {
    vars: Vec<(String, usize)>,
}

impl View for FrameLayer {
    type V = Bindings;

    closed spec fn view(&self) -> Bindings {
        Seq::new(self.vars@.len(), |i: int| (self.vars@[i].0@, self.vars@[i].1))
    }
}

impl Clone for FrameLayer {
    fn clone(&self) -> (r: Self)
        ensures
            r@ == self@,
            distinct_names(r@),
    {
        let mut vars: Vec<(String, usize)> = Vec::new();
        let mut i: usize = 0;
        while i < self.vars.len()
            invariant
                i <= self.vars.len(),
                vars@.len() == i,
                forall|k: int| 0 <= k < i ==> vars@[k].0@ == self.vars@[k].0@ && vars@[k].1 == self.vars@[k].1,
            decreases self.vars.len() - i,
        {
            let name = self.vars[i].0.clone();
            vars.push((name, self.vars[i].1));
            i += 1;
        }
        proof {
            use_type_invariant(self);
        }
        let r = FrameLayer { vars };
        assert(r@ =~= self@);
        r
    }
}

impl FrameLayer {
    /// No name is bound twice.
    #[verifier::type_invariant]
    closed spec fn names_distinct(&self) -> bool {
        forall|i: int, j: int|
            0 <= i < self.vars@.len() && 0 <= j < self.vars@.len() && i != j ==> self.vars@[i].0@
                != self.vars@[j].0@
    }

    /// A layer without bindings.
    pub fn new() -> (r: Self)
        ensures
            r@ == Seq::<(Seq<char>, usize)>::empty(),
            distinct_names(r@),
    {
        let r = FrameLayer { vars: Vec::new() };
        assert(r@ =~= Seq::<(Seq<char>, usize)>::empty());
        r
    }

    /// The slot bound to `name`, if the layer binds it.
    pub fn find(&self, name: &str) -> (r: Option<usize>)
        ensures
            r == lookup(self@, name@),
    {
        let wanted = name.to_owned();
        let mut i: usize = self.vars.len();
        assert(self@.take(i as int) =~= self@);
        while i > 0
            invariant
                i <= self.vars.len(),
                wanted@ == name@,
                lookup(self@, name@) == lookup(self@.take(i as int), name@),
            decreases i,
        {
            i -= 1;
            assert(self@.take(i + 1).drop_last() =~= self@.take(i as int));
            assert(self@.take(i + 1).last() == self@[i as int]);
            if self.vars[i].0 == wanted {
                return Some(self.vars[i].1);
            }
        }
        None
    }

    /// The slot bound to `name`; where the layer does not bind it yet, the
    /// name is bound to `alt_addr` first.
    pub fn get_addr(&mut self, name: &str, alt_addr: usize) -> (r: usize)
        ensures
            match lookup(old(self)@, name@) {
                Some(slot) => r == slot && final(self)@ == old(self)@,
                None => r == alt_addr && final(self)@ == old(self)@.push((name@, alt_addr)),
            },
            distinct_names(old(self)@),
            distinct_names(final(self)@),
    {
        proof {
            use_type_invariant(&*self);
            lemma_lookup(self@, name@);
            assert(forall|k: int| 0 <= k < self.vars@.len() ==> self.vars@[k].0@ == (#[trigger] self@[k]).0);
        }
        match self.find(name) {
            Some(slot) => slot,
            None => {
                let mut vars: Vec<(String, usize)> = Vec::new();
                core::mem::swap(&mut self.vars, &mut vars);
                let ghost held = vars@;
                vars.push((name.to_owned(), alt_addr));
                proof {
                    assert forall|i: int, j: int|
                        0 <= i < vars@.len() && 0 <= j < vars@.len() && i != j implies vars@[i].0@
                        != vars@[j].0@ by {
                        if i < held.len() {
                            assert(old(self)@[i].0 == held[i].0@);
                        }
                        if j < held.len() {
                            assert(old(self)@[j].0 == held[j].0@);
                        }
                    }
                }
                self.vars = vars;
                assert(self@ =~= old(self)@.push((name@, alt_addr)));
                alt_addr
            },
        }
    }

    /// The number of bindings in the layer, which is the number of names
    /// that it binds.
    pub fn len(&self) -> (r: usize)
        ensures
            r == self@.len(),
            distinct_names(self@),
    {
        proof {
            use_type_invariant(self);
            assert(forall|k: int| 0 <= k < self.vars@.len() ==> self.vars@[k].0@ == (#[trigger] self@[k]).0);
        }
        self.vars.len()
    }

    /// The fragment that sets the frame pointer and reserves one slot for
    /// each binding of the layer.
    pub fn gen_mips(&self) -> (r: String)
        ensures
            r@ == reserve_text(self@.len() as usize),
    {
        reserve(self.vars.len())
    }
}

/// The layers of a frame: the enclosing layers from the outermost to the
/// innermost, and the open innermost layer.
pub struct StackView {
    pub layers: Seq<Bindings>,
    pub top: Bindings,
}

impl StackView {
    /// The layers together with the value `n` of the slot counter that the
    /// frame draws from.
    pub open spec fn at(self, n: usize) -> FrameView {
        FrameView { layers: self.layers, top: self.top, n_vars: n }
    }

    /// The slot that the layers resolve `name` to: the enclosing layers are
    /// searched before the open one.
    pub open spec fn resolve(self, name: Seq<char>) -> Option<usize> {
        self.at(0).resolve(name)
    }

    /// The layers of a nested block: the open layer joins the enclosing ones
    /// and a fresh layer is opened.
    pub open spec fn pushed(self) -> StackView {
        StackView { layers: self.layers.push(self.top), top: Seq::empty() }
    }
}

/// The state of a scope: the layers of a frame and the value of the slot
/// counter that the frame draws from, which is the number of slots handed
/// out so far through every frame of the function.
pub struct FrameView {
    pub layers: Seq<Bindings>,
    pub top: Bindings,
    pub n_vars: usize,
}

impl FrameView {
    /// The frame with which a parse begins.
    pub open spec fn empty() -> FrameView {
        FrameView { layers: Seq::empty(), top: Seq::empty(), n_vars: 0 }
    }

    /// Every layer of the frame, the open one last.
    pub open spec fn all_layers(self) -> Seq<Bindings> {
        self.layers.push(self.top)
    }

    /// The slot that the frame resolves `name` to: the enclosing layers are
    /// searched before the open one.
    pub open spec fn resolve(self, name: Seq<char>) -> Option<usize> {
        match outer_lookup(self.layers, name) {
            Some(slot) => Some(slot),
            None => lookup(self.top, name),
        }
    }

    /// Whether a name that the frame does not bind yet can be given a slot.
    pub open spec fn can_bind(self, name: Seq<char>) -> bool {
        self.resolve(name) is Some || self.n_vars < usize::MAX
    }

    /// The slot that asking for `name` yields.
    pub open spec fn slot_for(self, name: Seq<char>) -> usize {
        match self.resolve(name) {
            Some(slot) => slot,
            None => self.n_vars,
        }
    }

    /// The frame after `name` was asked for: unchanged where the name was
    /// bound, else with the name bound to the next free slot in the open
    /// layer.
    pub open spec fn after_get(self, name: Seq<char>) -> FrameView {
        match self.resolve(name) {
            Some(_) => self,
            None => FrameView {
                layers: self.layers,
                top: self.top.push((name, self.n_vars)),
                n_vars: (self.n_vars + 1) as usize,
            },
        }
    }

    /// The frame of a nested block: the open layer joins the enclosing ones
    /// and a fresh layer is opened; the slot counter carries over.
    pub open spec fn pushed(self) -> FrameView {
        FrameView { layers: self.layers.push(self.top), top: Seq::empty(), n_vars: self.n_vars }
    }

    /// The same layers with the slot counter at `n`.
    pub open spec fn counted(self, n: usize) -> FrameView {
        FrameView { layers: self.layers, top: self.top, n_vars: n }
    }

    /// The layers of the frame, without the counter.
    pub open spec fn stack(self) -> StackView {
        StackView { layers: self.layers, top: self.top }
    }

    /// Every bound slot lies below the counter, and no two bindings share a
    /// name or a slot.
    pub open spec fn wf(self) -> bool {
        let all = self.all_layers();
        &&& forall|i: int, k: int|
            0 <= i < all.len() && 0 <= k < all[i].len() ==> (#[trigger] all[i][k]).1 < self.n_vars
        &&& forall|i: int, k: int, j: int, m: int|
            0 <= i < all.len() && 0 <= k < all[i].len() && 0 <= j < all.len() && 0 <= m
                < all[j].len() && ((#[trigger] all[i][k]).1 == (#[trigger] all[j][m]).1
                || all[i][k].0 == all[j][m].0) ==> i == j && k == m
    }
}

/// A binding that `lookup` finds stands in the layer; a name that it does not
/// find stands nowhere in it.
pub proof fn lemma_lookup(entries: Bindings, name: Seq<char>)
    ensures
        match lookup(entries, name) {
            Some(slot) => exists|k: int| 0 <= k < entries.len() && #[trigger] entries[k] == (name, slot),
            None => forall|k: int| 0 <= k < entries.len() ==> (#[trigger] entries[k]).0 != name,
        },
    decreases entries.len(),
{
    if entries.len() > 0 {
        if entries.last().0 == name {
            assert(entries[entries.len() - 1] == (name, entries.last().1));
        } else {
            lemma_lookup(entries.drop_last(), name);
            match lookup(entries, name) {
                Some(slot) => {
                    let k = choose|k: int|
                        0 <= k < entries.drop_last().len() && #[trigger] entries.drop_last()[k] == (
                            name,
                            slot,
                        );
                    assert(entries[k] == (name, slot));
                },
                None => {
                    assert forall|k: int| 0 <= k < entries.len() implies (#[trigger] entries[k]).0
                        != name by {
                        if k < entries.len() - 1 {
                            assert(entries.drop_last()[k] == entries[k]);
                        }
                    }
                },
            }
        }
    }
}

/// The same for a search through enclosing layers.
pub proof fn lemma_outer_lookup(layers: Seq<Bindings>, name: Seq<char>)
    ensures
        match outer_lookup(layers, name) {
            Some(slot) => exists|i: int, k: int|
                0 <= i < layers.len() && 0 <= k < layers[i].len() && #[trigger] layers[i][k] == (
                    name,
                    slot,
                ),
            None => forall|i: int, k: int|
                0 <= i < layers.len() && 0 <= k < layers[i].len() ==> (#[trigger] layers[i][k]).0
                    != name,
        },
    decreases layers.len(),
{
    if layers.len() > 0 {
        lemma_lookup(layers.last(), name);
        match lookup(layers.last(), name) {
            Some(slot) => {
                let k = choose|k: int|
                    0 <= k < layers.last().len() && #[trigger] layers.last()[k] == (name, slot);
                assert(layers[layers.len() - 1][k] == (name, slot));
            },
            None => {
                lemma_outer_lookup(layers.drop_last(), name);
                match outer_lookup(layers, name) {
                    Some(slot) => {
                        let (i, k) = choose|i: int, k: int|
                            0 <= i < layers.drop_last().len() && 0 <= k < layers.drop_last()[i].len()
                                && #[trigger] layers.drop_last()[i][k] == (name, slot);
                        assert(layers[i][k] == (name, slot));
                    },
                    None => {
                        assert forall|i: int, k: int|
                            0 <= i < layers.len() && 0 <= k < layers[i].len() implies (
                        #[trigger] layers[i][k]).0 != name by {
                            if i < layers.len() - 1 {
                                assert(layers.drop_last()[i][k] == layers[i][k]);
                            }
                        }
                    },
                }
            },
        }
    }
}

/// What a frame resolves a name to is one of its bindings; a name that it
/// does not resolve is bound in none of its layers.
pub proof fn lemma_resolve(f: FrameView, name: Seq<char>)
    ensures
        match f.resolve(name) {
            Some(slot) => exists|i: int, k: int|
                0 <= i < f.all_layers().len() && 0 <= k < f.all_layers()[i].len()
                    && #[trigger] f.all_layers()[i][k] == (name, slot),
            None => forall|i: int, k: int|
                0 <= i < f.all_layers().len() && 0 <= k < f.all_layers()[i].len() ==> (
                #[trigger] f.all_layers()[i][k]).0 != name,
        },
{
    let all = f.all_layers();
    lemma_outer_lookup(f.layers, name);
    lemma_lookup(f.top, name);
    match outer_lookup(f.layers, name) {
        Some(slot) => {
            let (i, k) = choose|i: int, k: int|
                0 <= i < f.layers.len() && 0 <= k < f.layers[i].len() && #[trigger] f.layers[i][k]
                    == (name, slot);
            assert(all[i][k] == (name, slot));
        },
        None => {
            match lookup(f.top, name) {
                Some(slot) => {
                    let k = choose|k: int| 0 <= k < f.top.len() && #[trigger] f.top[k] == (name, slot);
                    assert(all[all.len() - 1][k] == (name, slot));
                },
                None => {
                    assert forall|i: int, k: int|
                        0 <= i < all.len() && 0 <= k < all[i].len() implies (#[trigger] all[i][k]).0
                        != name by {
                        if i < f.layers.len() {
                            assert(f.layers[i][k] == all[i][k]);
                        } else {
                            assert(f.top[k] == all[i][k]);
                        }
                    }
                },
            }
        },
    }
}

/// Asking a well-formed frame for a name leaves it well formed.
pub proof fn lemma_after_get_wf(f: FrameView, name: Seq<char>)
    requires
        f.wf(),
        f.can_bind(name),
    ensures
        f.after_get(name).wf(),
        f.slot_for(name) < f.after_get(name).n_vars,
        f.after_get(name).resolve(name) == Some(f.slot_for(name)),
{
    lemma_resolve(f, name);
    let g = f.after_get(name);
    let all = f.all_layers();
    let all2 = g.all_layers();
    match f.resolve(name) {
        Some(slot) => {
            let (i, k) = choose|i: int, k: int|
                0 <= i < all.len() && 0 <= k < all[i].len() && #[trigger] all[i][k] == (name, slot);
        },
        None => {
            let last = all.len() - 1;
            assert(all2.len() == all.len());
            assert forall|i: int, k: int| 0 <= i < all2.len() && 0 <= k < all2[i].len() implies (
            #[trigger] all2[i][k]) == (if i == last && k == f.top.len() {
                (name, f.n_vars)
            } else {
                all[i][k]
            }) && (i == last && k == f.top.len() || k < all[i].len()) by {}
            assert forall|i: int, k: int, j: int, m: int|
                0 <= i < all2.len() && 0 <= k < all2[i].len() && 0 <= j < all2.len() && 0 <= m
                    < all2[j].len() && ((#[trigger] all2[i][k]).1 == (#[trigger] all2[j][m]).1
                    || all2[i][k].0 == all2[j][m].0) implies i == j && k == m by {
                let fresh_a = i == last && k == f.top.len();
                let fresh_b = j == last && m == f.top.len();
                if !fresh_a {
                    assert(all2[i][k] == all[i][k]);
                }
                if !fresh_b {
                    assert(all2[j][m] == all[j][m]);
                }
            }
            assert(lookup(g.top, name) == Some(f.n_vars));
        },
    }
}

/// The counter of one function's slots. Every frame of the function draws
/// its slots from it, so that no slot is handed out twice, whichever frame
/// asks.
#[derive(Debug)]
pub struct SlotCounter {
    next: usize,
}

impl View for SlotCounter {
    type V = usize;

    closed spec fn view(&self) -> usize {
        self.next
    }
}

impl Clone for SlotCounter {
    fn clone(&self) -> (r: Self)
        ensures
            r@ == self@,
    {
        SlotCounter { next: self.next }
    }
}

impl SlotCounter {
    /// A counter that has handed out no slot.
    pub fn new() -> (r: Self)
        ensures
            r@ == 0,
    {
        SlotCounter { next: 0 }
    }

    /// The number of slots handed out so far.
    pub fn count(&self) -> (r: usize)
        ensures
            r == self@,
    {
        self.next
    }

    /// Moves the counter on to at least `upto`, so that no slot below `upto`
    /// is handed out from now on.
    pub fn skip_to(&mut self, upto: usize)
        ensures
            final(self)@ == if upto > old(self)@ {
                upto
            } else {
                old(self)@
            },
    {
        if upto > self.next {
            self.next = upto;
        }
    }

    /// The fragment that sets the frame pointer and reserves every slot that
    /// the counter has handed out.
    pub fn gen_mips(&self) -> (r: String)
        ensures
            r@ == reserve_text(self@),
    {
        reserve(self.next)
    }
}

/// A frame: the enclosing layers and the open innermost layer. The slots
/// come from the counter of the function, which every frame of the function
/// shares.
#[derive(Debug)]
pub struct FrameStack {
    layers: Vec<FrameLayer>,
    top: FrameLayer,
}

impl View for FrameStack {
    type V = StackView;

    closed spec fn view(&self) -> StackView {
        StackView { layers: Seq::new(self.layers@.len(), |i: int| self.layers@[i]@), top: self.top@ }
    }
}

impl Clone for FrameStack {
    fn clone(&self) -> (r: Self)
        ensures
            r@ == self@,
    {
        let layers = self.copy_layers();
        let r = FrameStack { layers, top: self.top.clone() };
        assert(r@.layers =~= self@.layers);
        r
    }
}

impl FrameStack {
    /// Copies of the enclosing layers.
    fn copy_layers(&self) -> (r: Vec<FrameLayer>)
        ensures
            r@.len() == self.layers@.len(),
            forall|k: int| 0 <= k < r@.len() ==> r@[k]@ == self.layers@[k]@,
    {
        let mut layers: Vec<FrameLayer> = Vec::new();
        let mut i: usize = 0;
        while i < self.layers.len()
            invariant
                i <= self.layers.len(),
                layers@.len() == i,
                forall|k: int| 0 <= k < i ==> layers@[k]@ == self.layers@[k]@,
            decreases self.layers.len() - i,
        {
            layers.push(self.layers[i].clone());
            i += 1;
        }
        layers
    }

    /// The frame with which a parse begins: no layer but the open one, and
    /// no binding. With a new counter it is well formed.
    pub fn new() -> (r: Self)
        ensures
            r@ == FrameView::empty().stack(),
            r@.at(0) == FrameView::empty(),
            r@.at(0).wf(),
    {
        let r = FrameStack { layers: Vec::new(), top: FrameLayer::new() };
        assert(r@.layers =~= Seq::<Bindings>::empty());
        r
    }

    /// The frame of a nested block. The frame itself stays as it is. The new
    /// frame draws from the same counter: whatever the counter stands at, the
    /// new frame is well formed with it if this one is.
    pub fn push(&self) -> (r: Self)
        ensures
            r@ == self@.pushed(),
            forall|n: usize| #[trigger] r@.at(n) == self@.at(n).pushed(),
            forall|n: usize| self@.at(n).wf() ==> #[trigger] r@.at(n).wf(),
    {
        let mut layers = self.copy_layers();
        layers.push(self.top.clone());
        let r = FrameStack { layers, top: FrameLayer::new() };
        assert(r@.layers =~= self@.pushed().layers);
        proof {
            assert forall|n: usize| self@.at(n).wf() implies #[trigger] r@.at(n).wf() by {
                lemma_pushed(self@.at(n), Seq::empty());
            }
        }
        r
    }

    /// Whether asking for `name` can be answered: the name is bound, or the
    /// counter has a slot left to bind it to.
    pub fn can_bind(&self, name: &str, counter: &SlotCounter) -> (r: bool)
        ensures
            r == self@.at(counter@).can_bind(name@),
    {
        counter.next < usize::MAX || self.find(name).is_some()
    }

    /// The slot that the frame resolves `name` to, without binding anything.
    pub fn find(&self, name: &str) -> (r: Option<usize>)
        ensures
            r == self@.resolve(name@),
    {
        let mut i: usize = self.layers.len();
        assert(self@.layers.take(i as int) =~= self@.layers);
        while i > 0
            invariant
                i <= self.layers.len(),
                outer_lookup(self@.layers, name@) == outer_lookup(self@.layers.take(i as int), name@),
            decreases i,
        {
            i -= 1;
            assert(self@.layers.take(i + 1).drop_last() =~= self@.layers.take(i as int));
            assert(self@.layers.take(i + 1).last() == self@.layers[i as int]);
            match self.layers[i].find(name) {
                Some(slot) => {
                    return Some(slot);
                },
                None => {},
            }
        }
        self.top.find(name)
    }

    /// The slot of `name`. The enclosing layers are searched first, from the
    /// innermost outwards, then the open layer. A name bound nowhere is bound
    /// in the open layer to the slot that `counter` stands at, and the
    /// counter moves on by one: so a slot handed out through any frame that
    /// draws from `counter` lies above every slot handed out before.
    pub fn get_addr(&mut self, name: &str, counter: &mut SlotCounter) -> (r: usize)
        requires
            old(self)@.at(old(counter)@).can_bind(name@),
        ensures
            r == old(self)@.at(old(counter)@).slot_for(name@),
            final(self)@.at(final(counter)@) == old(self)@.at(old(counter)@).after_get(name@),
            match old(self)@.resolve(name@) {
                Some(slot) => r == slot && final(counter)@ == old(counter)@,
                None => r == old(counter)@ && final(counter)@ == old(counter)@ + 1,
            },
            old(self)@.at(old(counter)@).wf() ==> final(self)@.at(final(counter)@).wf(),
    {
        proof {
            if self@.at(counter@).wf() {
                lemma_after_get_wf(self@.at(counter@), name@);
            }
        }
        match self.find(name) {
            Some(slot) => slot,
            None => {
                let slot = counter.next;
                counter.next = slot + 1;
                self.top.get_addr(name, slot)
            },
        }
    }

    /// The fragment that sets the frame pointer and reserves every slot that
    /// the counter of the frame has handed out.
    pub fn gen_mips(&self, counter: &SlotCounter) -> (r: String)
        ensures
            r@ == reserve_text(counter@),
    {
        counter.gen_mips()
    }
}

/// Two distinct names never get the same slot from a well-formed frame,
/// whether either was bound before or not.
pub proof fn law_distinct_names_distinct_slots(f: FrameView, a: Seq<char>, b: Seq<char>)
    requires
        f.wf(),
        a != b,
        f.can_bind(a),
        f.after_get(a).can_bind(b),
    ensures
        f.slot_for(a) != f.after_get(a).slot_for(b),
{
    lemma_after_get_wf(f, a);
    let g = f.after_get(a);
    lemma_resolve(g, a);
    lemma_resolve(g, b);
    let all = g.all_layers();
    match g.resolve(b) {
        Some(slot_b) => {
            let (i, k) = choose|i: int, k: int|
                0 <= i < all.len() && 0 <= k < all[i].len() && #[trigger] all[i][k] == (a, f.slot_for(a));
            let (j, m) = choose|j: int, m: int|
                0 <= j < all.len() && 0 <= m < all[j].len() && #[trigger] all[j][m] == (b, slot_b);
        },
        None => {},
    }
}

/// Two distinct names that a well-formed frame binds at the same time have
/// distinct slots, and every slot that it binds lies below its counter, so
/// inside the space that the frame reserves.
pub proof fn law_live_names_have_distinct_slots(f: FrameView, a: Seq<char>, b: Seq<char>)
    requires
        f.wf(),
        a != b,
        f.resolve(a) is Some,
        f.resolve(b) is Some,
    ensures
        f.resolve(a) != f.resolve(b),
        f.resolve(a)->Some_0 < f.n_vars,
        f.resolve(b)->Some_0 < f.n_vars,
{
    lemma_resolve(f, a);
    lemma_resolve(f, b);
    let all = f.all_layers();
    let (i, k) = choose|i: int, k: int|
        0 <= i < all.len() && 0 <= k < all[i].len() && #[trigger] all[i][k] == (
            a,
            f.resolve(a)->Some_0,
        );
    let (j, m) = choose|j: int, m: int|
        0 <= j < all.len() && 0 <= m < all[j].len() && #[trigger] all[j][m] == (
            b,
            f.resolve(b)->Some_0,
        );
}

/// Frames that draw from one counter share no slot: a slot handed out
/// through one frame is never handed out again, through that frame or any
/// other, whatever was handed out in between. Here `first` binds the new
/// name `a` when the counter stands at `n`, and `second`, any frame, binds
/// the new name `b` when the counter stands at `m`, which is no earlier than
/// just behind the first binding.
pub proof fn law_frames_share_the_counter(
    first: StackView,
    second: StackView,
    n: usize,
    m: usize,
    a: Seq<char>,
    b: Seq<char>,
)
    requires
        first.resolve(a) is None,
        second.resolve(b) is None,
        n < usize::MAX,
        first.at(n).after_get(a).n_vars <= m,
    ensures
        first.at(n).slot_for(a) == n,
        second.at(m).slot_for(b) == m,
        first.at(n).slot_for(a) < second.at(m).slot_for(b),
{
}

/// A new name gets a slot above every slot that is held: whichever frame
/// `holder` of the function holds a slot, and through whichever frame
/// `asker` a new name is bound, the new slot lies above the held one. Both
/// frames draw from the counter that stands at `n`, and `holder` is well
/// formed with it. So no two names that are live in one function share a
/// slot, in one frame or across frames, and a block's slot stays reserved
/// when the block's frame is gone.
pub proof fn law_new_slot_is_above_every_held_slot(
    holder: StackView,
    asker: StackView,
    n: usize,
    held: Seq<char>,
    fresh: Seq<char>,
)
    requires
        holder.at(n).wf(),
        holder.resolve(held) is Some,
        asker.resolve(fresh) is None,
    ensures
        asker.at(n).slot_for(fresh) == n,
        holder.resolve(held)->Some_0 < asker.at(n).slot_for(fresh),
{
    lemma_bound_slot_below_counter(holder.at(n), held);
}

/// Every slot that a well-formed frame binds lies below the counter.
pub proof fn lemma_bound_slot_below_counter(f: FrameView, name: Seq<char>)
    requires
        f.wf(),
        f.resolve(name) is Some,
    ensures
        f.resolve(name)->Some_0 < f.n_vars,
{
    lemma_resolve(f, name);
    let all = f.all_layers();
    let (i, k) = choose|i: int, k: int|
        0 <= i < all.len() && 0 <= k < all[i].len() && #[trigger] all[i][k] == (
            name,
            f.resolve(name)->Some_0,
        );
}

/// Moving the counter on keeps a frame well formed.
pub proof fn lemma_counted_wf(f: FrameView, n: usize)
    requires
        f.wf(),
        n >= f.n_vars,
    ensures
        f.counted(n).wf(),
{
    assert(f.counted(n).all_layers() =~= f.all_layers());
}

/// Asking again for a name yields the same slot and changes nothing.
pub proof fn law_same_name_same_slot(f: FrameView, name: Seq<char>)
    requires
        f.wf(),
        f.can_bind(name),
    ensures
        f.after_get(name).slot_for(name) == f.slot_for(name),
        f.after_get(name).after_get(name) == f.after_get(name),
{
    lemma_after_get_wf(f, name);
}

/// Outward search comes before allocation: a name that the enclosing block
/// binds resolves, inside a nested block, to the enclosing binding, and
/// nothing is allocated for it.
pub proof fn law_enclosing_binding_wins(f: FrameView, name: Seq<char>)
    requires
        f.wf(),
        f.resolve(name) is Some,
    ensures
        f.pushed().slot_for(name) == f.resolve(name).unwrap(),
        f.pushed().after_get(name) == f.pushed(),
        f.pushed().wf(),
{
    lemma_pushed(f, name);
}

/// Pushing keeps what every name resolves to, and keeps the frame well
/// formed.
pub proof fn lemma_pushed(f: FrameView, name: Seq<char>)
    requires
        f.wf(),
    ensures
        f.pushed().resolve(name) == f.resolve(name),
        f.pushed().wf(),
{
    let p = f.pushed();
    assert(p.layers.drop_last() =~= f.layers);
    assert(p.layers.last() == f.top);
    lemma_resolve(f, name);
    let all = f.all_layers();
    if outer_lookup(f.layers, name) is Some && lookup(f.top, name) is Some {
        lemma_outer_lookup(f.layers, name);
        lemma_lookup(f.top, name);
        let slot = outer_lookup(f.layers, name).unwrap();
        let (i, k) = choose|i: int, k: int|
            0 <= i < f.layers.len() && 0 <= k < f.layers[i].len() && #[trigger] f.layers[i][k] == (
                name,
                slot,
            );
        let m = choose|m: int|
            0 <= m < f.top.len() && #[trigger] f.top[m] == (name, lookup(f.top, name).unwrap());
        assert(all[i][k].0 == name);
        assert(all[all.len() - 1][m].0 == name);
        assert(false);
    }
    let all2 = p.all_layers();
    assert forall|i: int, k: int| 0 <= i < all2.len() && 0 <= k < all2[i].len() implies i < all.len()
        && #[trigger] all2[i][k] == all[i][k] by {}
}

} // verus!
