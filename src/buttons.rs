use vstd::prelude::*;

verus! {

/// Where `button` is in `pressed`, if it is held.
pub fn contains_button(pressed: &Vec<u32>, button: u32) -> (r: Option<usize>)
    ensures
        r matches Some(i) ==> i < pressed@.len() && pressed@[i as int] == button,
        r is None <==> !pressed@.contains(button),
{
    let mut i: usize = 0;
    while i < pressed.len()
        invariant
            i <= pressed@.len(),
            forall|j: int| 0 <= j < i ==> pressed@[j] != button,
        decreases pressed@.len() - i,
    {
        if pressed[i] == button {
            return Some(i);
        }
        i = i + 1;
    }
    None
}

/// Records that `button` went down.
pub fn press_button(pressed: &mut Vec<u32>, button: u32)
    requires
        old(pressed)@.no_duplicates(),
    ensures
        final(pressed)@.no_duplicates(),
        forall|b: u32| final(pressed)@.contains(b) <==> (old(pressed)@.contains(b) || b == button),
{
    let ghost before = pressed@;
    match contains_button(pressed, button) {
        Some(_) => {},
        None => {
            pressed.push(button);
            assert forall|b: u32| pressed@.contains(b) <==> (before.contains(b) || b == button) by {
                if before.contains(b) {
                    let j = choose|j: int| 0 <= j < before.len() && before[j] == b;
                    assert(pressed@[j] == b);
                }
                if b == button {
                    assert(pressed@[before.len() as int] == b);
                }
                if pressed@.contains(b) && b != button {
                    let j = choose|j: int| 0 <= j < pressed@.len() && pressed@[j] == b;
                    assert(j < before.len());
                    assert(before[j] == b);
                }
            }
        },
    }
}

/// Records that `button` went up.
pub fn release_button(pressed: &mut Vec<u32>, button: u32)
    requires
        old(pressed)@.no_duplicates(),
    ensures
        final(pressed)@.no_duplicates(),
        forall|b: u32| final(pressed)@.contains(b) <==> (old(pressed)@.contains(b) && b != button),
{
    let ghost before = pressed@;
    match contains_button(pressed, button) {
        None => {},
        Some(idx) => {
            pressed.remove(idx);
            assert(pressed@ == before.remove(idx as int));
            assert forall|b: u32| pressed@.contains(b) <==> (before.contains(b) && b != button) by {
                if before.contains(b) && b != button {
                    let j = choose|j: int| 0 <= j < before.len() && before[j] == b;
                    if j < idx {
                        assert(pressed@[j] == b);
                    } else {
                        assert(j != idx);
                        assert(pressed@[j - 1] == b);
                    }
                }
                if pressed@.contains(b) {
                    let j = choose|j: int| 0 <= j < pressed@.len() && pressed@[j] == b;
                    if j < idx {
                        assert(before[j] == b);
                        assert(j != idx);
                    } else {
                        assert(before[j + 1] == b);
                        assert(j + 1 != idx);
                    }
                }
            }
        },
    }
}

} // verus!
