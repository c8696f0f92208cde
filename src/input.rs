//! Button state: which inputs are held, and which changed since the last
//! frame.

use vstd::prelude::*;
use vstd::laws_eq::obeys_concrete_eq;

verus! {

/// Whether `v` holds `x`, comparing by value.
fn holds<T: PartialEq>(v: &Vec<T>, x: &T) -> (r: Option<usize>)
    requires
        obeys_concrete_eq::<T>(),
    ensures
        r matches Some(i) ==> i < v@.len() && v@[i as int] == *x,
        r is None ==> !v@.contains(*x),
{
    let mut i: usize = 0;
    while i < v.len()
        invariant
            obeys_concrete_eq::<T>(),
            i <= v@.len(),
            forall|j: int| 0 <= j < i ==> v@[j] != *x,
        decreases v@.len() - i,
    {
        proof {
            reveal(obeys_concrete_eq);
        }
        if v[i] == *x {
            return Some(i);
        }
        i = i + 1;
    }
    None
}

/// Adds `x` to the elements of `v` unless it is there already; says whether it was added.
fn add_element<T: PartialEq>(v: &mut Vec<T>, x: T) -> (added: bool)
    requires
        obeys_concrete_eq::<T>(),
        old(v)@.no_duplicates(),
    ensures
        final(v)@.no_duplicates(),
        added == !old(v)@.contains(x),
        final(v)@.to_set() == old(v)@.to_set().insert(x),
{
    match holds(v, &x) {
        Some(_) => {
            assert(v@.to_set() =~= v@.to_set().insert(x));
            false
        },
        None => {
            let ghost before = v@;
            v.push(x);
            assert forall|y: T| #[trigger] v@.contains(y) <==> before.contains(y) || y == x by {
                if before.contains(y) {
                    let j = choose|j: int| 0 <= j < before.len() && before[j] == y;
                    assert(v@[j] == y);
                }
                if y == x {
                    assert(v@[before.len() as int] == y);
                }
            }
            assert(v@.to_set() =~= before.to_set().insert(x));
            true
        },
    }
}

/// Takes `x` out of the elements of `v`; says whether it was there.
fn remove_element<T: PartialEq>(v: &mut Vec<T>, x: &T) -> (removed: bool)
    requires
        obeys_concrete_eq::<T>(),
        old(v)@.no_duplicates(),
    ensures
        final(v)@.no_duplicates(),
        removed == old(v)@.contains(*x),
        final(v)@.to_set() == old(v)@.to_set().remove(*x),
{
    match holds(v, x) {
        Some(i) => {
            let ghost before = v@;
            v.remove(i);
            proof {
                before.remove_ensures(i as int);
                assert forall|y: T| #[trigger] v@.contains(y) <==> before.contains(y) && y != *x by {
                    if v@.contains(y) {
                        let j = choose|j: int| 0 <= j < v@.len() && v@[j] == y;
                        if j < i {
                            assert(before[j] == y);
                        } else {
                            assert(before[j + 1] == y);
                        }
                    }
                    if before.contains(y) && y != *x {
                        let j = choose|j: int| 0 <= j < before.len() && before[j] == y;
                        if j < i {
                            assert(v@[j] == y);
                        } else {
                            assert(j != i);
                            assert(v@[j - 1] == y);
                        }
                    }
                }
                assert(v@.to_set() =~= before.to_set().remove(*x));
            }
            true
        },
        None => {
            assert(v@.to_set() =~= v@.to_set().remove(*x));
            false
        },
    }
}

/// A copy of the elements of `v`.
fn copy_elements<T: Copy>(v: &Vec<T>) -> (r: Vec<T>)
    ensures
        r@ == v@,
{
    let mut r: Vec<T> = Vec::with_capacity(v.len());
    let mut i: usize = 0;
    while i < v.len()
        invariant
            i <= v@.len(),
            r@ == v@.take(i as int),
        decreases v@.len() - i,
    {
        r.push(v[i]);
        assert(r@ =~= v@.take(i + 1));
        i = i + 1;
    }
    assert(v@.take(v@.len() as int) =~= v@);
    r
}

/// The state of a set of buttons: which are held down, which went down
/// since the last `clear`, and which came up since then.
///
/// The methods that compare inputs ask that `==` on `T` be equality of
/// values (`obeys_concrete_eq`), as it is for `MouseButton`.
#[derive(Debug, Clone)]
pub struct Input<T> {
    pressed: Vec<T>,
    just_pressed: Vec<T>,
    just_released: Vec<T>,
}

impl<T> Input<T> {
    /// The inputs currently held down.
    pub closed spec fn pressed_set(&self) -> Set<T> {
        self.pressed@.to_set()
    }

    /// The inputs pressed since the last `clear`.
    pub closed spec fn just_pressed_set(&self) -> Set<T> {
        self.just_pressed@.to_set()
    }

    /// The inputs released since the last `clear`.
    pub closed spec fn just_released_set(&self) -> Set<T> {
        self.just_released@.to_set()
    }

    pub closed spec fn wf(&self) -> bool {
        &&& self.pressed@.no_duplicates()
        &&& self.just_pressed@.no_duplicates()
        &&& self.just_released@.no_duplicates()
    }
}

impl<T> Default for Input<T> {
    fn default() -> (r: Input<T>)
        ensures
            r.wf(),
            r.pressed_set() == Set::<T>::empty(),
            r.just_pressed_set() == Set::<T>::empty(),
            r.just_released_set() == Set::<T>::empty(),
    {
        let r = Input { pressed: Vec::new(), just_pressed: Vec::new(), just_released: Vec::new() };
        assert(r.pressed@.to_set() =~= Set::<T>::empty());
        assert(r.just_pressed@.to_set() =~= Set::<T>::empty());
        assert(r.just_released@.to_set() =~= Set::<T>::empty());
        r
    }
}

impl<T: Copy + PartialEq> Input<T> {
    /// Registers a press of `input`; an input already held stays as it is.
    pub fn press(&mut self, input: T)
        requires
            old(self).wf(),
            obeys_concrete_eq::<T>(),
        ensures
            final(self).wf(),
            final(self).pressed_set() == old(self).pressed_set().insert(input),
            final(self).just_pressed_set() == if old(self).pressed_set().contains(input) {
                old(self).just_pressed_set()
            } else {
                old(self).just_pressed_set().insert(input)
            },
            final(self).just_released_set() == old(self).just_released_set(),
    {
        if add_element(&mut self.pressed, input) {
            add_element(&mut self.just_pressed, input);
        }
    }

    /// Whether `input` is held down.
    pub fn pressed(&self, input: T) -> (r: bool)
        requires
            self.wf(),
            obeys_concrete_eq::<T>(),
        ensures
            r == self.pressed_set().contains(input),
    {
        holds(&self.pressed, &input).is_some()
    }

    /// Whether any of `inputs` is held down.
    pub fn any_pressed(&self, inputs: &[T]) -> (r: bool)
        requires
            self.wf(),
            obeys_concrete_eq::<T>(),
        ensures
            r == exists|i: int| 0 <= i < inputs@.len() && self.pressed_set().contains(#[trigger] inputs@[i]),
    {
        let mut i: usize = 0;
        while i < inputs.len()
            invariant
                self.wf(),
                obeys_concrete_eq::<T>(),
                i <= inputs@.len(),
                forall|j: int| 0 <= j < i ==> !self.pressed_set().contains(#[trigger] inputs@[j]),
            decreases inputs@.len() - i,
        {
            if self.pressed(inputs[i]) {
                return true;
            }
            i = i + 1;
        }
        false
    }

    /// Registers a release of `input`; an input not held stays as it is.
    pub fn release(&mut self, input: T)
        requires
            old(self).wf(),
            obeys_concrete_eq::<T>(),
        ensures
            final(self).wf(),
            final(self).pressed_set() == old(self).pressed_set().remove(input),
            final(self).just_pressed_set() == old(self).just_pressed_set(),
            final(self).just_released_set() == if old(self).pressed_set().contains(input) {
                old(self).just_released_set().insert(input)
            } else {
                old(self).just_released_set()
            },
    {
        if remove_element(&mut self.pressed, &input) {
            add_element(&mut self.just_released, input);
        }
    }

    /// Registers a release of every input held down.
    pub fn release_all(&mut self)
        requires
            old(self).wf(),
            obeys_concrete_eq::<T>(),
        ensures
            final(self).wf(),
            final(self).pressed_set() == Set::<T>::empty(),
            final(self).just_pressed_set() == old(self).just_pressed_set(),
            final(self).just_released_set() == old(self).just_released_set().union(
                old(self).pressed_set(),
            ),
    {
        let ghost held = self.pressed@;
        let mut i: usize = 0;
        while i < self.pressed.len()
            invariant
                self.pressed@ == held,
                self.just_released@.no_duplicates(),
                self.just_pressed@ == old(self).just_pressed@,
                held == old(self).pressed@,
                obeys_concrete_eq::<T>(),
                i <= held.len(),
                self.just_released@.to_set() == old(self).just_released@.to_set().union(
                    held.take(i as int).to_set(),
                ),
            decreases held.len() - i,
        {
            let x = self.pressed[i];
            add_element(&mut self.just_released, x);
            proof {
                assert(held.take(i + 1) =~= held.take(i as int).push(x));
                assert(held.take(i + 1).to_set() =~= held.take(i as int).to_set().insert(x)) by {
                    assert forall|y: T| #[trigger] held.take(i + 1).contains(y) <==> held.take(
                        i as int,
                    ).contains(y) || y == x by {
                        let t = held.take(i as int);
                        if t.contains(y) {
                            let j = choose|j: int| 0 <= j < t.len() && t[j] == y;
                            assert(held.take(i + 1)[j] == y);
                        }
                        if y == x {
                            assert(held.take(i + 1)[i as int] == y);
                        }
                        let t1 = held.take(i + 1);
                        if t1.contains(y) {
                            let j = choose|j: int| 0 <= j < t1.len() && t1[j] == y;
                            if j < i {
                                assert(t[j] == y);
                            }
                        }
                    }
                }
                assert(self.just_released@.to_set() =~= old(self).just_released@.to_set().union(
                    held.take(i + 1).to_set(),
                ));
            }
            i = i + 1;
        }
        assert(held.take(held.len() as int) =~= held);
        self.pressed.clear();
        assert(self.pressed@.to_set() =~= Set::<T>::empty());
    }

    /// Whether `input` went down since the last `clear`.
    pub fn just_pressed(&self, input: T) -> (r: bool)
        requires
            self.wf(),
            obeys_concrete_eq::<T>(),
        ensures
            r == self.just_pressed_set().contains(input),
    {
        holds(&self.just_pressed, &input).is_some()
    }

    /// Whether any of `inputs` went down since the last `clear`.
    pub fn any_just_pressed(&self, inputs: &[T]) -> (r: bool)
        requires
            self.wf(),
            obeys_concrete_eq::<T>(),
        ensures
            r == exists|i: int|
                0 <= i < inputs@.len() && self.just_pressed_set().contains(#[trigger] inputs@[i]),
    {
        let mut i: usize = 0;
        while i < inputs.len()
            invariant
                self.wf(),
                obeys_concrete_eq::<T>(),
                i <= inputs@.len(),
                forall|j: int| 0 <= j < i ==> !self.just_pressed_set().contains(#[trigger] inputs@[j]),
            decreases inputs@.len() - i,
        {
            if self.just_pressed(inputs[i]) {
                return true;
            }
            i = i + 1;
        }
        false
    }

    /// Forgets that `input` went down; says whether it had.
    pub fn clear_just_pressed(&mut self, input: T) -> (r: bool)
        requires
            old(self).wf(),
            obeys_concrete_eq::<T>(),
        ensures
            final(self).wf(),
            r == old(self).just_pressed_set().contains(input),
            final(self).pressed_set() == old(self).pressed_set(),
            final(self).just_pressed_set() == old(self).just_pressed_set().remove(input),
            final(self).just_released_set() == old(self).just_released_set(),
    {
        remove_element(&mut self.just_pressed, &input)
    }

    /// Whether `input` came up since the last `clear`.
    pub fn just_released(&self, input: T) -> (r: bool)
        requires
            self.wf(),
            obeys_concrete_eq::<T>(),
        ensures
            r == self.just_released_set().contains(input),
    {
        holds(&self.just_released, &input).is_some()
    }

    /// Whether any of `inputs` came up since the last `clear`.
    pub fn any_just_released(&self, inputs: &[T]) -> (r: bool)
        requires
            self.wf(),
            obeys_concrete_eq::<T>(),
        ensures
            r == exists|i: int|
                0 <= i < inputs@.len() && self.just_released_set().contains(#[trigger] inputs@[i]),
    {
        let mut i: usize = 0;
        while i < inputs.len()
            invariant
                self.wf(),
                obeys_concrete_eq::<T>(),
                i <= inputs@.len(),
                forall|j: int|
                    0 <= j < i ==> !self.just_released_set().contains(#[trigger] inputs@[j]),
            decreases inputs@.len() - i,
        {
            if self.just_released(inputs[i]) {
                return true;
            }
            i = i + 1;
        }
        false
    }

    /// Forgets that `input` came up; says whether it had.
    pub fn clear_just_released(&mut self, input: T) -> (r: bool)
        requires
            old(self).wf(),
            obeys_concrete_eq::<T>(),
        ensures
            final(self).wf(),
            r == old(self).just_released_set().contains(input),
            final(self).pressed_set() == old(self).pressed_set(),
            final(self).just_pressed_set() == old(self).just_pressed_set(),
            final(self).just_released_set() == old(self).just_released_set().remove(input),
    {
        remove_element(&mut self.just_released, &input)
    }

    /// Forgets everything about `input`.
    pub fn reset(&mut self, input: T)
        requires
            old(self).wf(),
            obeys_concrete_eq::<T>(),
        ensures
            final(self).wf(),
            final(self).pressed_set() == old(self).pressed_set().remove(input),
            final(self).just_pressed_set() == old(self).just_pressed_set().remove(input),
            final(self).just_released_set() == old(self).just_released_set().remove(input),
    {
        remove_element(&mut self.pressed, &input);
        remove_element(&mut self.just_pressed, &input);
        remove_element(&mut self.just_released, &input);
    }

    /// Forgets everything about every input.
    pub fn reset_all(&mut self)
        ensures
            final(self).wf(),
            final(self).pressed_set() == Set::<T>::empty(),
            final(self).just_pressed_set() == Set::<T>::empty(),
            final(self).just_released_set() == Set::<T>::empty(),
    {
        self.pressed.clear();
        self.just_pressed.clear();
        self.just_released.clear();
        assert(self.pressed@.to_set() =~= Set::<T>::empty());
        assert(self.just_pressed@.to_set() =~= Set::<T>::empty());
        assert(self.just_released@.to_set() =~= Set::<T>::empty());
    }

    /// Starts a new frame: nothing has just gone down or come up.
    pub fn clear(&mut self)
        requires
            old(self).wf(),
        ensures
            final(self).wf(),
            final(self).pressed_set() == old(self).pressed_set(),
            final(self).just_pressed_set() == Set::<T>::empty(),
            final(self).just_released_set() == Set::<T>::empty(),
    {
        self.just_pressed.clear();
        self.just_released.clear();
        assert(self.just_pressed@.to_set() =~= Set::<T>::empty());
        assert(self.just_released@.to_set() =~= Set::<T>::empty());
    }

    /// Every input held down, each once, in no particular order.
    pub fn get_pressed(&self) -> (r: Vec<T>)
        requires
            self.wf(),
        ensures
            r@.no_duplicates(),
            r@.to_set() == self.pressed_set(),
    {
        copy_elements(&self.pressed)
    }

    /// Every input that went down since the last `clear`, each once.
    pub fn get_just_pressed(&self) -> (r: Vec<T>)
        requires
            self.wf(),
        ensures
            r@.no_duplicates(),
            r@.to_set() == self.just_pressed_set(),
    {
        copy_elements(&self.just_pressed)
    }

    /// Every input that came up since the last `clear`, each once.
    pub fn get_just_released(&self) -> (r: Vec<T>)
        requires
            self.wf(),
        ensures
            r@.no_duplicates(),
            r@.to_set() == self.just_released_set(),
    {
        copy_elements(&self.just_released)
    }
}

} // verus!
