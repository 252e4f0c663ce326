//! Choosing an audio device by its name.

use crate::registry::{self, wrap, wrap2};
use crate::text;
use vstd::prelude::*;

verus! {

/// Whether a name has what is looked for in it, whatever the case of its letters.
pub open spec fn names_device(name: Option<Seq<char>>, lowered: Seq<char>) -> bool {
    name matches Some(n) && text::has(text::lowercase(n), lowered)
}

/// The first device from an index on that is looked for.
pub open spec fn device_from(
    names: Seq<Option<String>>,
    lowered: Seq<char>,
    from: int,
) -> Option<int>
    decreases names.len() - from,
{
    if from >= names.len() {
        None
    } else if names_device(registry::opt_view(names[from]), lowered) {
        Some(from)
    } else {
        device_from(names, lowered, from + 1)
    }
}

/// The device that is meant: the first one where nothing is looked for.
pub open spec fn device_for(names: Seq<Option<String>>, needle: Seq<char>) -> Option<int> {
    if needle.len() == 0 {
        if names.len() > 0 {
            Some(0)
        } else {
            None
        }
    } else {
        device_from(names, text::lowercase(needle), 0)
    }
}

/// Finds a device by a part of its name. A device without a readable name is passed
/// over.
pub fn find_device(names: &Vec<Option<String>>, needle: &str, kind: &str) -> (r: Result<
    usize,
    String,
>)
    ensures
        match r {
            Ok(i) => device_for(names@, needle@) == Some(i as int) && i < names@.len(),
            Err(m) => device_for(names@, needle@) is None && m@ == if needle@.len() == 0 {
                "no "@ + kind@ + " device found"@
            } else {
                "no "@ + kind@ + " device matching '"@ + needle@ + "'"@
            },
        },
{
    if needle.is_empty() {
        if names.len() > 0 {
            return Ok(0);
        }
        return Err(wrap("no ", kind, " device found"));
    }
    let lowered: String = text::lowercase_of(needle);
    let mut i: usize = 0;
    while i < names.len()
        invariant
            i <= names.len(),
            needle@.len() > 0,
            lowered@ == text::lowercase(needle@),
            device_for(names@, needle@) == device_from(names@, lowered@, i as int),
        decreases names.len() - i,
    {
        match &names[i] {
            Some(n) => {
                let l: String = text::lowercase_of(n.as_str());
                if text::contains(l.as_str(), lowered.as_str()) {
                    return Ok(i);
                }
            },
            None => {},
        }
        i += 1;
    }
    Err(wrap2("no ", kind, " device matching '", needle, "'"))
}

/// The first device whose name holds what is asked for is taken, whatever the case;
/// the first of all where nothing is asked for.
pub proof fn law_first_device_is_taken(names: Seq<Option<String>>, needle: Seq<char>)
    ensures
        needle.len() == 0 && names.len() > 0 ==> device_for(names, needle) == Some(0int),
        names.len() == 0 ==> device_for(names, needle) is None,
        needle.len() > 0 ==> match device_for(names, needle) {
            Some(i) => {
                &&& 0 <= i < names.len()
                &&& names[i] is Some
                &&& text::has(text::lowercase(names[i].unwrap()@), text::lowercase(needle))
                &&& forall|j: int|
                    0 <= j < i && (#[trigger] names[j]) is Some ==> !text::has(
                        text::lowercase(names[j].unwrap()@),
                        text::lowercase(needle),
                    )
            },
            None => forall|j: int|
                0 <= j < names.len() && (#[trigger] names[j]) is Some ==> !text::has(
                    text::lowercase(names[j].unwrap()@),
                    text::lowercase(needle),
                ),
        },
{
    lemma_device_from(names, text::lowercase(needle), 0);
}

proof fn lemma_device_from(names: Seq<Option<String>>, lowered: Seq<char>, from: int)
    requires
        0 <= from <= names.len(),
    ensures
        match device_from(names, lowered, from) {
            Some(i) => {
                &&& from <= i < names.len()
                &&& names[i] is Some
                &&& text::has(text::lowercase(names[i].unwrap()@), lowered)
                &&& forall|j: int|
                    from <= j < i && (#[trigger] names[j]) is Some ==> !text::has(
                        text::lowercase(names[j].unwrap()@),
                        lowered,
                    )
            },
            None => forall|j: int|
                from <= j < names.len() && (#[trigger] names[j]) is Some ==> !text::has(
                    text::lowercase(names[j].unwrap()@),
                    lowered,
                ),
        },
    decreases names.len() - from,
{
    if from < names.len() && !names_device(registry::opt_view(names[from]), lowered) {
        lemma_device_from(names, lowered, from + 1);
    }
}

} // verus!
