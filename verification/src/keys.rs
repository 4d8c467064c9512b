//! Keyboard plumbing that needs no X connection: resolving a keysym to
//! the lowest keycode whose symbol set contains it, and building the key
//! grabs for a binding table.

use crate::effect::{Effect, Effects};
use vstd::prelude::*;

verus! {

/// Keycode chunk `c` of the keymap lists `sym` among its symbols.
/// The last chunk may be shorter than `per`.
pub open spec fn spec_chunk_contains(keysyms: Seq<u32>, per: int, c: int, sym: u32) -> bool {
    exists|j: int| c * per <= j < c * per + per && 0 <= j < keysyms.len() && keysyms[j] == sym
}

/// Resolves a keysym to the lowest keycode whose symbol set contains it,
/// walking the keymap in chunks of `keysyms_per_keycode` starting at
/// `min_keycode`.
pub fn find_keycode(
    keysyms: &Vec<u32>,
    keysyms_per_keycode: usize,
    min_keycode: u8,
    keysym: u32,
) -> (r: Option<u8>)
    requires
        keysyms_per_keycode >= 1,
    ensures
        r matches Some(code) ==> {
            &&& code >= min_keycode
            &&& spec_chunk_contains(
                keysyms@,
                keysyms_per_keycode as int,
                code - min_keycode,
                keysym,
            )
            &&& forall|c2: int|
                0 <= c2 < code - min_keycode ==> !spec_chunk_contains(
                    keysyms@,
                    keysyms_per_keycode as int,
                    c2,
                    keysym,
                )
        },
        r is None ==> forall|c: int|
            0 <= c && c * keysyms_per_keycode < keysyms@.len() && min_keycode + c <= u8::MAX
                ==> !spec_chunk_contains(keysyms@, keysyms_per_keycode as int, c, keysym),
{
    let per = keysyms_per_keycode;
    let n = keysyms.len();
    let mut start: usize = 0;
    let mut c: usize = 0;
    while start < n
        invariant
            per == keysyms_per_keycode,
            per >= 1,
            n == keysyms@.len(),
            0 <= c,
            c <= start,
            start < n ==> start == c * per,
            start >= n ==> c * per >= n,
            forall|c2: int|
                0 <= c2 < c && min_keycode + c2 <= u8::MAX ==> !spec_chunk_contains(
                    keysyms@,
                    per as int,
                    c2,
                    keysym,
                ),
        decreases n - start,
    {
        if c > (u8::MAX - min_keycode) as usize {
            proof {
                assert forall|c2: int|
                    0 <= c2 && c2 * (per as int) < keysyms@.len() && min_keycode + c2 <= u8::MAX
                        implies !spec_chunk_contains(keysyms@, per as int, c2, keysym) by {
                    assert(c2 < c);
                }
            }
            return None;
        }
        let end = if per <= n && start <= n - per {
            start + per
        } else {
            n
        };
        let ghost chunk_start = start as int;
        let mut j: usize = start;
        while j < end
            invariant
                per == keysyms_per_keycode,
                per >= 1,
                n == keysyms@.len(),
                chunk_start == c * per,
                chunk_start <= j as int <= end,
                end <= n,
                end as int <= chunk_start + per,
                end as int == if chunk_start + per <= n {
                    chunk_start + per
                } else {
                    n as int
                },
                c <= (u8::MAX - min_keycode) as usize,
                forall|c2: int|
                    0 <= c2 < c ==> !spec_chunk_contains(keysyms@, per as int, c2, keysym),
                forall|j2: int| chunk_start <= j2 < j ==> keysyms@[j2] != keysym,
            decreases end - j,
        {
            if keysyms[j] == keysym {
                proof {
                    assert(spec_chunk_contains(keysyms@, per as int, c as int, keysym));
                }
                return Some(min_keycode + c as u8);
            }
            j = j + 1;
        }
        proof {
            assert(!spec_chunk_contains(keysyms@, per as int, c as int, keysym)) by {
                if spec_chunk_contains(keysyms@, per as int, c as int, keysym) {
                    let j2 = choose|j2: int|
                        chunk_start <= j2 < chunk_start + per && 0 <= j2 < keysyms@.len()
                            && keysyms@[j2] == keysym;
                    assert(j2 < end);
                }
            }
            assert((c + 1) * (per as int) == c * (per as int) + per) by (nonlinear_arith);
        }
        start = end;
        c = c + 1;
    }
    proof {
        assert forall|c2: int|
            0 <= c2 && c2 * (per as int) < keysyms@.len() && min_keycode + c2 <= u8::MAX implies
            !spec_chunk_contains(keysyms@, per as int, c2, keysym) by {
            if c2 >= c {
                vstd::arithmetic::mul::lemma_mul_inequality(c as int, c2, per as int);
            }
        }
    }
    None
}

/// One key grab per binding, on the root window.
pub fn keygrab_effects(bindings: &Vec<(u8, u32)>, root: u32) -> (r: Effects)
    ensures
        r@.len() == bindings@.len(),
        forall|i: int|
            0 <= i < r@.len() ==> r@[i] == (Effect::GrabKey {
                keycode: (#[trigger] bindings@[i]).0,
                modifiers: bindings@[i].1,
                grab_window: root,
            }),
{
    let mut out: Effects = Vec::new();
    let n = bindings.len();
    let mut i: usize = 0;
    while i < n
        invariant
            0 <= i <= n,
            n == bindings@.len(),
            out@.len() == i,
            forall|k: int|
                0 <= k < i ==> out@[k] == (Effect::GrabKey {
                    keycode: (#[trigger] bindings@[k]).0,
                    modifiers: bindings@[k].1,
                    grab_window: root,
                }),
        decreases n - i,
    {
        let b = bindings[i];
        out.push(Effect::GrabKey { keycode: b.0, modifiers: b.1, grab_window: root });
        i = i + 1;
    }
    out
}

} // verus!
