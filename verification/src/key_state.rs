//! Pressed-key tracking: which key codes are currently held down.

use vstd::prelude::*;
use vstd::string::StringExecFns;

verus! {

/// The set of currently pressed key codes.
#[derive(Clone, Debug)]
pub struct KeyState {
    pub pressed_keys: Vec<String>,
}

/// Whether some entry of `keys` reads `code`.
pub open spec fn seq_has(keys: Seq<String>, code: Seq<char>) -> bool {
    exists|i: int| 0 <= i < keys.len() && (#[trigger] keys[i])@ == code
}

/// Whether `code` is among the pressed keys.
pub open spec fn spec_is_pressed(ks: KeyState, code: Seq<char>) -> bool {
    seq_has(ks.pressed_keys@, code)
}

impl KeyState {
    pub fn new() -> (r: Self)
        ensures
            r.pressed_keys@ =~= Seq::<String>::empty(),
            forall|c: Seq<char>| !spec_is_pressed(r, c),
    {
        KeyState { pressed_keys: Vec::new() }
    }

    pub fn is_pressed(&self, code: &str) -> (r: bool)
        ensures
            r == spec_is_pressed(*self, code@),
    {
        let key = String::from_str(code);
        let mut i: usize = 0;
        while i < self.pressed_keys.len()
            invariant
                i <= self.pressed_keys@.len(),
                key@ == code@,
                forall|j: int| 0 <= j < i ==> (#[trigger] self.pressed_keys@[j])@ != code@,
            decreases self.pressed_keys@.len() - i,
        {
            if self.pressed_keys[i] == key {
                return true;
            }
            i = i + 1;
        }
        false
    }

    pub fn set_pressed(&mut self, code: &str)
        ensures
            forall|c: Seq<char>|
                spec_is_pressed(*final(self), c) == (spec_is_pressed(*old(self), c) || c
                    == code@),
    {
        if !self.is_pressed(code) {
            self.pressed_keys.push(String::from_str(code));
            proof {
                let all = self.pressed_keys@;
                let before = old(self).pressed_keys@;
                assert forall|c: Seq<char>|
                    spec_is_pressed(*self, c) == (spec_is_pressed(*old(self), c) || c
                        == code@) by {
                    if spec_is_pressed(*self, c) {
                        let i = choose|i: int|
                            0 <= i < all.len() && (#[trigger] all[i])@ == c;
                        if i < before.len() {
                            assert(before[i]@ == c);
                        } else {
                            assert(all[i] == all[all.len() - 1]);
                        }
                    }
                    if spec_is_pressed(*old(self), c) {
                        let i = choose|i: int|
                            0 <= i < before.len() && (#[trigger] before[i])@ == c;
                        assert(all[i]@ == c);
                    }
                    if c == code@ {
                        assert(all[all.len() - 1]@ == c);
                    }
                }
            }
        }
    }

    pub fn set_released(&mut self, code: &str)
        ensures
            forall|c: Seq<char>|
                spec_is_pressed(*final(self), c) == (spec_is_pressed(*old(self), c) && c
                    != code@),
    {
        let key = String::from_str(code);
        let mut kept: Vec<String> = Vec::new();
        let mut i: usize = 0;
        proof {
            assert(self.pressed_keys@.take(0) =~= Seq::<String>::empty());
        }
        while i < self.pressed_keys.len()
            invariant
                i <= self.pressed_keys@.len(),
                key@ == code@,
                forall|c: Seq<char>|
                    seq_has(kept@, c) == (seq_has(self.pressed_keys@.take(i as int), c) && c
                        != code@),
            decreases self.pressed_keys@.len() - i,
        {
            let ghost kept_before = kept@;
            let entry = &self.pressed_keys[i];
            if !(*entry == key) {
                kept.push(entry.clone());
            }
            proof {
                let keys = self.pressed_keys@;
                let shorter = keys.take(i as int);
                let longer = keys.take(i as int + 1);
                assert(longer.drop_last() =~= shorter);
                assert(longer.last() == keys[i as int]);
                assert forall|c: Seq<char>|
                    seq_has(kept@, c) == (seq_has(longer, c) && c != code@) by {
                    if seq_has(kept@, c) {
                        let w = choose|w: int|
                            0 <= w < kept@.len() && (#[trigger] kept@[w])@ == c;
                        if w < kept_before.len() {
                            assert(kept_before[w]@ == c);
                            assert(seq_has(kept_before, c));
                            let j = choose|j: int|
                                0 <= j < shorter.len() && (#[trigger] shorter[j])@ == c;
                            assert(longer[j]@ == c);
                        } else {
                            assert(kept@[w] == keys[i as int]);
                            assert(longer[i as int]@ == c);
                        }
                    }
                    if seq_has(longer, c) && c != code@ {
                        let j = choose|j: int|
                            0 <= j < longer.len() && (#[trigger] longer[j])@ == c;
                        if j < i {
                            assert(shorter[j]@ == c);
                            assert(seq_has(shorter, c));
                            assert(seq_has(kept_before, c));
                            let w = choose|w: int|
                                0 <= w < kept_before.len() && (#[trigger] kept_before[w])@ == c;
                            assert(kept@[w]@ == c);
                        } else {
                            assert(keys[i as int]@ == c);
                            assert(kept@[kept@.len() - 1]@ == c);
                        }
                    }
                }
            }
            i = i + 1;
        }
        proof {
            assert(self.pressed_keys@.take(self.pressed_keys@.len() as int)
                =~= self.pressed_keys@);
        }
        self.pressed_keys = kept;
    }
}

} // verus!
