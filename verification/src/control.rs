//! Per-player control schemes: mapping raw input symbols to directions.

#![allow(unused_imports)]
use vstd::prelude::*;

use crate::direction::SnakeDirection;

verus! {

/// Input symbol for the up arrow key.
pub const KEY_ARROW_UP: u32 = 1;

/// Input symbol for the left arrow key.
pub const KEY_ARROW_LEFT: u32 = 2;

/// Input symbol for the down arrow key.
pub const KEY_ARROW_DOWN: u32 = 3;

/// Input symbol for the right arrow key.
pub const KEY_ARROW_RIGHT: u32 = 4;

/// Input symbol for the W key.
pub const KEY_W: u32 = 5;

/// Input symbol for the A key.
pub const KEY_A: u32 = 6;

/// Input symbol for the S key.
pub const KEY_S: u32 = 7;

/// Input symbol for the D key.
pub const KEY_D: u32 = 8;

/// First direction bound to `key` in the listed controls, if any; with unique
/// keys this is the only one.
pub open spec fn lookup_key(s: Seq<(u32, SnakeDirection)>, key: u32) -> Option<SnakeDirection>
    decreases s.len(),
{
    if s.len() == 0 {
        None
    } else if s[0].0 == key {
        Some(s[0].1)
    } else {
        lookup_key(s.drop_first(), key)
    }
}

/// The direction candidate a sequence of newly pressed keys resolves to: the
/// last pressed key that the controls map wins; unmapped keys produce no
/// candidate and never clear an earlier one.
pub open spec fn resolve_candidate(
    s: Seq<(u32, SnakeDirection)>,
    pressed: Seq<u32>,
) -> Option<SnakeDirection>
    decreases pressed.len(),
{
    if pressed.len() == 0 {
        None
    } else {
        match lookup_key(s, pressed[pressed.len() - 1]) {
            Some(d) => Some(d),
            None => resolve_candidate(s, pressed.drop_last()),
        }
    }
}

/// A player's control scheme: a mapping from raw input symbols (key codes)
/// to directions, with each key bound at most once.
#[derive(Clone, Debug)]
pub struct ControlScheme {
    pub directional_controls: Vec<(u32, SnakeDirection)>,
}

impl ControlScheme {
    /// Keys are unique, so a lookup has at most one match.
    pub open spec fn wf(self) -> bool {
        forall|i: int, j: int|
            0 <= i < j < self.directional_controls@.len()
                ==> (#[trigger] self.directional_controls@[i]).0
                    != (#[trigger] self.directional_controls@[j]).0
    }

    /// An empty scheme, to be extended with [`Self::bind`].
    pub fn new() -> (r: Self)
        ensures
            r.wf(),
            r.directional_controls@.len() == 0,
    {
        ControlScheme { directional_controls: Vec::new() }
    }

    /// Binds `key` to `dir` unless `key` is already bound; reports whether
    /// the binding was added.
    pub fn bind(&mut self, key: u32, dir: SnakeDirection) -> (added: bool)
        requires
            old(self).wf(),
        ensures
            final(self).wf(),
            added == (lookup_key(old(self).directional_controls@, key) is None),
            added ==> final(self).directional_controls@
                == old(self).directional_controls@.push((key, dir)),
            !added ==> final(self).directional_controls@ == old(self).directional_controls@,
    {
        if self.direction_changed(key).is_some() {
            return false;
        }
        proof {
            lemma_lookup_key_none_no_match(self.directional_controls@, key);
        }
        self.directional_controls.push((key, dir));
        true
    }

    /// The direction this scheme binds to `key`, if any.
    pub fn direction_changed(&self, key: u32) -> (r: Option<SnakeDirection>)
        ensures
            r == lookup_key(self.directional_controls@, key),
    {
        let s = &self.directional_controls;
        let ghost full = s@;
        proof {
            assert(full.skip(0) =~= full);
        }
        let mut i: usize = 0;
        while i < s.len()
            invariant
                i <= s@.len(),
                s@ == full,
                self.directional_controls@ == full,
                lookup_key(full, key) == lookup_key(full.skip(i as int), key),
                forall|j: int| 0 <= j < i ==> (#[trigger] full[j]).0 != key,
            decreases s@.len() - i,
        {
            let (k, d) = s[i];
            if k == key {
                proof {
                    assert(full.skip(i as int).len() > 0);
                    assert(full.skip(i as int)[0] == full[i as int]);
                    assert(lookup_key(full.skip(i as int), key) == Some(full[i as int].1));
                }
                return Some(d);
            }
            proof {
                assert(full.skip(i as int).drop_first() =~= full.skip(i as int + 1));
            }
            i = i + 1;
        }
        proof {
            assert(full.skip(i as int).len() == 0);
        }
        None
    }
}

impl ControlScheme {
    /// Resolves this scheme's direction candidate from the keys newly
    /// pressed this tick: the last pressed key the scheme maps wins, and
    /// unmapped keys produce no candidate.
    pub fn resolve(&self, pressed: &Vec<u32>) -> (r: Option<SnakeDirection>)
        ensures
            r == resolve_candidate(self.directional_controls@, pressed@),
    {
        let ghost s = self.directional_controls@;
        let mut cand: Option<SnakeDirection> = None;
        proof {
            assert(pressed@.take(0) =~= Seq::<u32>::empty());
        }
        let mut i: usize = 0;
        while i < pressed.len()
            invariant
                i <= pressed@.len(),
                s == self.directional_controls@,
                cand == resolve_candidate(s, pressed@.take(i as int)),
            decreases pressed@.len() - i,
        {
            let d = self.direction_changed(pressed[i]);
            proof {
                let t1 = pressed@.take(i as int + 1);
                assert(t1.drop_last() =~= pressed@.take(i as int));
                assert(t1[t1.len() - 1] == pressed@[i as int]);
            }
            if let Some(dir) = d {
                cand = Some(dir);
            }
            i = i + 1;
        }
        proof {
            assert(pressed@.take(pressed@.len() as int) =~= pressed@);
        }
        cand
    }
}

/// When a lookup misses, no listed binding carries that key.
pub proof fn lemma_lookup_key_none_no_match(s: Seq<(u32, SnakeDirection)>, key: u32)
    requires
        lookup_key(s, key) is None,
    ensures
        forall|i: int| 0 <= i < s.len() ==> (#[trigger] s[i]).0 != key,
    decreases s.len(),
{
    if s.len() > 0 {
        lemma_lookup_key_none_no_match(s.drop_first(), key);
        assert forall|i: int| 0 <= i < s.len() implies (#[trigger] s[i]).0 != key by {
            if i > 0 {
                assert(s.drop_first()[i - 1] == s[i]);
            }
        }
    }
}

/// Appending a fresh binding leaves every other lookup unchanged and makes
/// the new key resolve to the new direction.
#[verifier::rlimit(50)]
pub proof fn lemma_lookup_key_push(s: Seq<(u32, SnakeDirection)>, key: u32, dir: SnakeDirection, q: u32)
    requires
        lookup_key(s, key) is None,
    ensures
        q == key ==> lookup_key(s.push((key, dir)), q) == Some(dir),
        q != key ==> lookup_key(s.push((key, dir)), q) == lookup_key(s, q),
    decreases s.len(),
{
    let sp = s.push((key, dir));
    if s.len() == 0 {
        assert(sp.len() == 1);
        assert(sp[0] == (key, dir));
        assert(sp.drop_first() =~= Seq::<(u32, SnakeDirection)>::empty());
        if q == key {
            assert(lookup_key(sp, q) == Some(dir));
        } else {
            assert(lookup_key(sp, q) == lookup_key(sp.drop_first(), q));
            assert(lookup_key(sp.drop_first(), q) is None);
            assert(lookup_key(s, q) is None);
        }
    } else {
        assert(s[0].0 != key);
        lemma_lookup_key_push(s.drop_first(), key, dir, q);
        assert(sp[0] == s[0]);
        assert(sp.len() == s.len() + 1);
        assert(sp.drop_first() =~= s.drop_first().push((key, dir)));
        if s[0].0 == q {
            assert(lookup_key(sp, q) == Some(sp[0].1));
            assert(lookup_key(s, q) == Some(s[0].1));
        } else {
            assert(lookup_key(sp, q) == lookup_key(sp.drop_first(), q));
            assert(lookup_key(s, q) == lookup_key(s.drop_first(), q));
            assert(lookup_key(sp.drop_first(), q) == lookup_key(
                s.drop_first().push((key, dir)),
                q,
            ));
        }
    }
}

} // verus!
