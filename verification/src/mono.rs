//! The held notes of a monophonic voice.
use vstd::prelude::*;

verus! {

/// Most notes a stack remembers.
pub const MONO_STACK: usize = 32;

/// The held notes of a monophonic voice, oldest first. The voice sounds the last one.
pub struct MonoStack {
    pub notes: Vec<u8>,
}

/// The notes without `note`, of which there is at most one.
pub open spec fn without(s: Seq<u8>, note: u8) -> Seq<u8> {
    s.filter(|x: u8| x != note)
}

/// The notes once `note` is pressed: it moves to the top, and on overflow the oldest is
/// forgotten.
pub open spec fn pressed(s: Seq<u8>, note: u8) -> Seq<u8> {
    let rest = without(s, note);
    if rest.len() == MONO_STACK {
        rest.skip(1).push(note)
    } else {
        rest.push(note)
    }
}

/// No note is held twice, and there are not too many.
pub open spec fn is_stack(s: Seq<u8>) -> bool {
    s.no_duplicates() && s.len() <= MONO_STACK
}

impl View for MonoStack {
    type V = Seq<u8>;

    open spec fn view(&self) -> Seq<u8> {
        self.notes@
    }
}

/// Taking out the one occurrence of a note is filtering it out.
proof fn lemma_remove_is_without(s: Seq<u8>, i: int)
    requires
        s.no_duplicates(),
        0 <= i < s.len(),
    ensures
        s.remove(i) == without(s, s[i]),
    decreases s.len(),
{
    let note = s[i];
    let keep = |x: u8| x != note;
    reveal(Seq::filter);
    let rest = s.drop_last();
    if i == s.len() - 1 {
        lemma_without_absent(rest, note);
        assert(s.remove(i) =~= rest);
    } else {
        lemma_remove_is_without(rest, i);
        assert(s.remove(i) =~= rest.remove(i).push(s.last()));
    }
}

/// A note that is not held is not missed.
pub proof fn lemma_without_absent(s: Seq<u8>, note: u8)
    requires
        !s.contains(note),
    ensures
        without(s, note) == s,
    decreases s.len(),
{
    reveal(Seq::filter);
    if s.len() > 0 {
        assert(s.last() != note) by {
            assert(s.contains(s[s.len() - 1]));
        }
        let rest = s.drop_last();
        assert(!rest.contains(note)) by {
            if rest.contains(note) {
                let k = choose|k: int| 0 <= k < rest.len() && rest[k] == note;
                assert(s[k] == note);
            }
        }
        lemma_without_absent(rest, note);
        assert(s =~= rest.push(s.last()));
    }
}

impl MonoStack {
    pub open spec fn wf(&self) -> bool {
        is_stack(self@)
    }

    pub fn new() -> (r: Self)
        ensures
            r@ == Seq::<u8>::empty(),
            r.wf(),
    {
        MonoStack { notes: Vec::with_capacity(MONO_STACK) }
    }

    pub fn clear(&mut self)
        ensures
            final(self)@ == Seq::<u8>::empty(),
            final(self).wf(),
    {
        self.notes.clear();
    }

    pub fn is_empty(&self) -> (r: bool)
        ensures
            r == (self@.len() == 0),
    {
        self.notes.len() == 0
    }

    /// The sounding note, if any is held.
    pub fn top(&self) -> (r: Option<u8>)
        ensures
            self@.len() == 0 ==> r is None,
            self@.len() > 0 ==> r == Some(self@.last()),
    {
        let n: usize = self.notes.len();
        if n == 0 {
            None
        } else {
            Some(self.notes[n - 1])
        }
    }

    fn position(&self, note: u8) -> (r: Option<usize>)
        ensures
            match r {
                Some(i) => i < self@.len() && self@[i as int] == note,
                None => !self@.contains(note),
            },
    {
        let n: usize = self.notes.len();
        let mut i: usize = 0;
        while i < n
            invariant
                i <= n == self@.len(),
                forall|j: int| 0 <= j < i ==> self@[j] != note,
            decreases n - i,
        {
            if self.notes[i] == note {
                return Some(i);
            }
            i = i + 1;
        }
        None
    }

    /// Press a note: it comes to the top, once. On overflow the oldest is forgotten.
    pub fn push(&mut self, note: u8)
        requires
            old(self).wf(),
        ensures
            final(self)@ == pressed(old(self)@, note),
            final(self).wf(),
    {
        match self.position(note) {
            Some(i) => {
                proof {
                    lemma_remove_is_without(self@, i as int);
                }
                self.notes.remove(i);
            },
            None => {
                proof {
                    lemma_without_absent(self@, note);
                }
                if self.notes.len() == MONO_STACK {
                    self.notes.remove(0);
                    assert(self@ =~= old(self)@.skip(1));
                }
            },
        }
        proof {
            lemma_pressed_is_stack(old(self)@, note);
        }
        self.notes.push(note);
    }

    /// Release a note. Returns whether it was the sounding one.
    pub fn pop(&mut self, note: u8) -> (r: bool)
        requires
            old(self).wf(),
        ensures
            final(self)@ == without(old(self)@, note),
            final(self).wf(),
            r == (old(self)@.len() > 0 && old(self)@.last() == note),
    {
        match self.position(note) {
            Some(i) => {
                proof {
                    lemma_remove_is_without(self@, i as int);
                    lemma_without_is_stack(self@, note);
                    if self@.last() == note {
                        assert(i == self@.len() - 1) by {
                            assert(self@[self@.len() - 1] == self@[i as int]);
                        }
                    }
                }
                let was_top: bool = i + 1 == self.notes.len();
                self.notes.remove(i);
                was_top
            },
            None => {
                proof {
                    lemma_without_absent(self@, note);
                    if self@.len() > 0 {
                        assert(self@.contains(self@[self@.len() - 1]));
                    }
                }
                false
            },
        }
    }
}

/// Releasing a note leaves the others, in their order.
pub proof fn lemma_without_is_stack(s: Seq<u8>, note: u8)
    requires
        is_stack(s),
    ensures
        is_stack(without(s, note)),
        !without(s, note).contains(note),
        without(s, note).len() == s.len() - (if s.contains(note) {
            1int
        } else {
            0
        }),
        forall|x: u8| x != note ==> (without(s, note).contains(x) <==> s.contains(x)),
{
    if s.contains(note) {
        let i = choose|i: int| 0 <= i < s.len() && s[i] == note;
        lemma_remove_is_without(s, i);
        let t = s.remove(i);
        assert forall|x: u8| x != note implies (t.contains(x) <==> s.contains(x)) by {
            if s.contains(x) {
                let k = choose|k: int| 0 <= k < s.len() && s[k] == x;
                if k < i {
                    assert(t[k] == x);
                } else {
                    assert(t[k - 1] == x);
                }
            }
            if t.contains(x) {
                let k = choose|k: int| 0 <= k < t.len() && t[k] == x;
                if k < i {
                    assert(s[k] == x);
                } else {
                    assert(s[k + 1] == x);
                }
            }
        }
        assert(!t.contains(note)) by {
            if t.contains(note) {
                let k = choose|k: int| 0 <= k < t.len() && t[k] == note;
                if k < i {
                    assert(s[k] == s[i]);
                } else {
                    assert(s[k + 1] == s[i]);
                }
            }
        }
    } else {
        lemma_without_absent(s, note);
    }
}

/// Pressing a note puts it on top, held once, whatever was held before.
pub proof fn lemma_pressed_is_stack(s: Seq<u8>, note: u8)
    requires
        is_stack(s),
    ensures
        is_stack(pressed(s, note)),
        pressed(s, note).last() == note,
{
    lemma_without_is_stack(s, note);
    let rest = without(s, note);
    let base = if rest.len() == MONO_STACK {
        rest.skip(1)
    } else {
        rest
    };
    assert forall|i: int, j: int| 0 <= i < j < base.push(note).len() implies base.push(note)[i]
        != base.push(note)[j] by {
        if j == base.len() {
            if rest.len() == MONO_STACK {
                assert(rest.contains(rest[i + 1]));
            } else {
                assert(rest.contains(rest[i]));
            }
        }
    }
}

/// Pressing a note and releasing it again leaves the stack as it was, so what sounds then is
/// the note pressed before it, if there is one.
pub proof fn lemma_release_reveals_previous(s: Seq<u8>, note: u8)
    requires
        is_stack(s),
        !s.contains(note),
        s.len() < MONO_STACK,
    ensures
        without(pressed(s, note), note) == s,
{
    lemma_without_absent(s, note);
    lemma_pressed_is_stack(s, note);
    let t = s.push(note);
    assert(pressed(s, note) == t);
    lemma_remove_is_without(t, s.len() as int);
    assert(t.remove(s.len() as int) =~= s);
}

} // verus!
