//! The `guifont` option where only one family can be drawn with.
//!
//! A list of candidates is refused as a whole: taking its first family would drop the others in
//! silence. A size is needed.

use vstd::prelude::*;

use crate::gui::font;
use crate::gui::font::{Candidate, CandidateView};
use crate::strings;

verus! {

/// A monospaced font that has the Japanese characters and comes with Windows.
pub const LAST_RESORT_FAMILY: &'static str = "MS Gothic";

/// One family and its size.
#[derive(Clone, Debug, PartialEq, Eq)]
pub struct FontSpec {
    pub family: String,
    /// The size in points, as its IEEE 754 bits (binary32).
    pub size_bits: u32,
}

#[verifier::ext_equal]
pub struct FontSpecView {
    pub family: Seq<char>,
    pub size_bits: u32,
}

impl View for FontSpec {
    type V = FontSpecView;

    open spec fn view(&self) -> FontSpecView {
        FontSpecView { family: self.family@, size_bits: self.size_bits }
    }
}

/// The one candidate that the option names, where it names one.
pub open spec fn sole_candidate(guifont: Seq<char>) -> Option<CandidateView> {
    let text = strings::trimmed(guifont);
    if text.len() == 0 || text.contains(',') {
        None
    } else {
        font::candidate_of(text)
    }
}

/// What the option asks for, given what reading its size gave.
pub open spec fn parsed(guifont: Seq<char>, reading: Option<u32>) -> Option<FontSpecView> {
    match sole_candidate(guifont) {
        Some(candidate) => if candidate.size is Some && font::acceptable(reading) {
            Some(FontSpecView { family: candidate.family, size_bits: reading->0 })
        } else {
            None
        },
        None => None,
    }
}

/// The families to draw with, separated by `, `.
pub open spec fn chain_of(family: Seq<char>) -> Seq<char> {
    if strings::same_ignoring_case(family, LAST_RESORT_FAMILY@) {
        LAST_RESORT_FAMILY@
    } else {
        family + ", "@ + LAST_RESORT_FAMILY@
    }
}

/// Whether `c` stands in the text.
fn contains(s: &str, c: char) -> (found: bool)
    ensures
        found == s@.contains(c),
{
    let chars = strings::chars_of(s);
    let mut i: usize = 0;
    while i < chars.len()
        invariant
            i <= chars@.len(),
            chars@ == s@,
            forall|k: int| 0 <= k < i ==> s@[k] != c,
        decreases chars@.len() - i,
    {
        if chars[i] == c {
            assert(s@[i as int] == c);
            return true;
        }
        i = i + 1;
    }
    false
}

impl FontSpec {
    /// Takes the option apart. The size is left as the text behind the `h`.
    pub fn scan(guifont: &str) -> (candidate: Option<Candidate>)
        ensures
            (match candidate {
                Some(c) => sole_candidate(guifont@) == Some(c@),
                None => sole_candidate(guifont@) is None,
            }),
    {
        let text = strings::trim(guifont);
        if text.as_str().is_empty() || contains(text.as_str(), ',') {
            return None;
        }
        font::read_candidate(text.as_str())
    }

    /// Reads the option `family:h<size>`. `reading` is what reading the size that
    /// [`FontSpec::scan`] found gave: the bits of the number, or nothing.
    pub fn parse(guifont: &str, reading: Option<u32>) -> (spec: Option<FontSpec>)
        ensures
            (match spec {
                Some(s) => parsed(guifont@, reading) == Some(s@),
                None => parsed(guifont@, reading) is None,
            }),
    {
        let candidate = match FontSpec::scan(guifont) {
            Some(candidate) => candidate,
            None => return None,
        };
        if candidate.size.is_none() {
            return None;
        }
        match reading {
            Some(bits) => if font::MIN_SIZE_BITS <= bits && bits <= font::MAX_SIZE_BITS {
                Some(FontSpec { family: candidate.family, size_bits: bits })
            } else {
                None
            },
            None => None,
        }
    }

    /// The families to draw with, separated by `, `: that of the user, and the last resort after it
    /// unless it is the same.
    pub fn fallback_chain(&self) -> (chain: String)
        ensures
            chain@ == chain_of(self@.family),
    {
        if strings::eq_ignore_ascii_case(self.family.as_str(), LAST_RESORT_FAMILY) {
            return String::from_str(LAST_RESORT_FAMILY);
        }
        let mut chain = self.family.clone();
        chain.append(", ");
        chain.append(LAST_RESORT_FAMILY);
        chain
    }
}

impl Default for FontSpec {
    fn default() -> (spec: FontSpec)
        ensures
            spec@ == (FontSpecView {
                family: LAST_RESORT_FAMILY@,
                size_bits: font::DEFAULT_SIZE_BITS,
            }),
    {
        FontSpec {
            family: String::from_str(LAST_RESORT_FAMILY),
            size_bits: font::DEFAULT_SIZE_BITS,
        }
    }
}

/// What is accepted names a family and a size between 1 and 400 points; without a size nothing is.
pub proof fn law_accepted_requests_are_complete(guifont: Seq<char>, reading: Option<u32>)
    ensures
        parsed(guifont, reading) matches Some(spec) ==> {
            &&& spec.family.len() > 0
            &&& font::MIN_SIZE_BITS <= spec.size_bits <= font::MAX_SIZE_BITS
        },
        sole_candidate(guifont) matches Some(c) && c.size is None ==> parsed(guifont, reading)
            is None,
{
}

/// A family and a size, written `family:h<size>` with any white space around it, is read as these
/// two, whatever number the size is as long as it lies between 1 and 400 points.
pub proof fn law_one_family(
    before: Seq<char>,
    family: Seq<char>,
    size: Seq<char>,
    behind: Seq<char>,
    bits: u32,
)
    requires
        forall|i: int| 0 <= i < before.len() ==> strings::is_white(#[trigger] before[i]),
        forall|i: int| 0 <= i < behind.len() ==> strings::is_white(#[trigger] behind[i]),
        font::plain_name(family),
        !family.contains(','),
        !size.contains(','),
        !size.contains(':'),
        size.len() > 0 && !strings::is_white(size.last()),
    ensures
        ({
            let entry = family + seq![':', 'h'] + size;
            &&& sole_candidate(before + entry + behind) == Some(
                CandidateView { family, size: Some(size) },
            )
            &&& 0x3f80_0000 <= bits <= 0x43c8_0000 ==> parsed(
                before + entry + behind,
                Some(bits),
            ) == Some(FontSpecView { family, size_bits: bits })
            &&& bits < 0x3f80_0000 || bits > 0x43c8_0000 ==> parsed(
                before + entry + behind,
                Some(bits),
            ) is None
            &&& parsed(before + entry + behind, None) is None
        }),
{
    let entry = family + seq![':', 'h'] + size;
    assert(entry[0] == family[0]);
    assert(entry.last() == size.last());
    strings::law_trimmed(before, entry, behind);
    font::law_entry_with_a_size(family, size);
    assert(!entry.contains(',')) by {
        if entry.contains(',') {
            let i = choose|i: int| 0 <= i < entry.len() && entry[i] == ',';
            if i < family.len() {
                assert(family[i] == ',');
            } else if i >= family.len() + 2 {
                assert(size[i - family.len() - 2] == ',');
            }
        }
    }
}

/// A list of families is refused as a whole, and so is an option that names nothing.
pub proof fn law_no_list(text: Seq<char>, rest: Seq<char>, reading: Option<u32>)
    requires
        text.len() > 0 && !strings::is_white(text[0]),
        rest.len() > 0 && !strings::is_white(rest.last()),
    ensures
        parsed(text.push(',') + rest, reading) is None,
        parsed(seq![], reading) is None,
{
    let all = text.push(',') + rest;
    assert(all[0] == text[0] && all.last() == rest.last());
    strings::law_trimmed(seq![], all, seq![]);
    assert(seq![] + all + seq![] =~= all);
    assert(all[text.len() as int] == ',');
    assert(strings::trimmed(seq![]) == Seq::<char>::empty());
}

/// The last resort is drawn with after the family of the user, and only once where the two are the
/// same but for case.
pub proof fn law_chain(family: Seq<char>)
    ensures
        strings::same_ignoring_case(family, "MS Gothic"@) ==> chain_of(family) == "MS Gothic"@,
        !strings::same_ignoring_case(family, "MS Gothic"@) ==> chain_of(family) == family + ", "@
            + "MS Gothic"@,
{
}

/// A family alone is one candidate, without a size, and is not accepted for want of it.
pub proof fn law_family_alone(family: Seq<char>, reading: Option<u32>)
    requires
        font::plain_name(family),
        !family.contains(','),
    ensures
        sole_candidate(family) == Some(CandidateView { family, size: None }),
        parsed(family, reading) is None,
{
    strings::law_trimmed(seq![], family, seq![]);
    assert(seq![] + family + seq![] =~= family);
    font::law_other_entries(family, seq![], seq![], seq![]);
}

} // verus!
