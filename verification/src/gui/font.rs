//! The `guifont` option: a list of font families with sizes.
//!
//! A request that cannot be read is never replaced by a default in silence: drawing in another font
//! would hide from the user that the option has no effect.
//!
//! Sizes are floating-point numbers of points. They are read outside of here, and stand in here as
//! their IEEE 754 bits (binary32), which order positive numbers as the numbers themselves.

use vstd::prelude::*;

use crate::strings;
use crate::utf16;

verus! {

/// The family of the font that is part of the program: the default, and the last of every chain. It
/// is monospaced and has the Japanese characters.
pub const BUNDLED_FAMILY: &'static str = "Moralerspace Argon HW";

/// The default size, 12 points.
pub const DEFAULT_SIZE_BITS: u32 = 0x4140_0000;

/// The smallest size that is accepted, 1 point.
pub const MIN_SIZE_BITS: u32 = 0x3f80_0000;

/// The largest size that is accepted, 400 points. More is a slip of the finger, and would make cells
/// larger than any screen.
pub const MAX_SIZE_BITS: u32 = 0x43c8_0000;

/// What the option asks for.
#[derive(Clone, Debug, PartialEq, Eq)]
pub enum GuiFont {
    /// The choice is left to the program: the option is empty, or names no size at all. The latter
    /// is what nvim has it set to by default.
    Unspecified,
    /// A request that could be read.
    Spec(FontSpec),
    /// A request that could not. It is reported, and the font stays as it is.
    Invalid,
}

/// A font to draw with: families in the order of preference, and a size.
#[derive(Clone, Debug, PartialEq, Eq)]
pub struct FontSpec {
    pub families: Vec<String>,
    /// The size in points, as its bits.
    pub size_bits: u32,
}

/// One entry of the option. The size is still the text behind the `h`.
#[derive(Debug, PartialEq, Eq)]
pub struct Candidate {
    pub family: String,
    pub size: Option<String>,
}

/// The option taken apart.
#[derive(Debug, PartialEq, Eq)]
pub enum FontRequest {
    Unspecified,
    Candidates(Vec<Candidate>),
    Invalid,
}

/// Which collection a family was found in.
#[derive(Clone, Copy, Debug, PartialEq, Eq, Structural)]
pub enum FontSource {
    Bundled,
    System,
}

#[verifier::ext_equal]
pub struct CandidateView {
    pub family: Seq<char>,
    pub size: Option<Seq<char>>,
}

#[verifier::ext_equal]
pub enum RequestView {
    Unspecified,
    Candidates(Seq<CandidateView>),
    Invalid,
}

#[verifier::ext_equal]
pub struct FontSpecView {
    pub families: Seq<Seq<char>>,
    pub size_bits: u32,
}

#[verifier::ext_equal]
pub enum GuiFontView {
    Unspecified,
    Spec(FontSpecView),
    Invalid,
}

impl View for Candidate {
    type V = CandidateView;

    open spec fn view(&self) -> CandidateView {
        CandidateView {
            family: self.family@,
            size: match self.size {
                Some(text) => Some(text@),
                None => None,
            },
        }
    }
}

/// The candidates of a list.
pub open spec fn shown_candidates(v: Seq<Candidate>) -> Seq<CandidateView> {
    Seq::new(v.len(), |i: int| v[i]@)
}

impl View for FontRequest {
    type V = RequestView;

    open spec fn view(&self) -> RequestView {
        match *self {
            FontRequest::Unspecified => RequestView::Unspecified,
            FontRequest::Candidates(v) => RequestView::Candidates(shown_candidates(v@)),
            FontRequest::Invalid => RequestView::Invalid,
        }
    }
}

impl View for FontSpec {
    type V = FontSpecView;

    open spec fn view(&self) -> FontSpecView {
        FontSpecView { families: strings::texts(self.families@), size_bits: self.size_bits }
    }
}

impl View for GuiFont {
    type V = GuiFontView;

    open spec fn view(&self) -> GuiFontView {
        match *self {
            GuiFont::Unspecified => GuiFontView::Unspecified,
            GuiFont::Spec(spec) => GuiFontView::Spec(spec@),
            GuiFont::Invalid => GuiFontView::Invalid,
        }
    }
}

/// The family that a name stands for: an underscore is read as a space.
pub open spec fn family_of(name: Seq<char>) -> Seq<char> {
    strings::trimmed(strings::replaced(name, '_', ' '))
}

/// Reads an entry `family[:h<size>]`. A family is needed, and any option but one size is refused:
/// ignoring it would draw other than the user asked for.
pub open spec fn candidate_of(entry: Seq<char>) -> Option<CandidateView> {
    let parts = strings::pieces(entry, ':');
    let family = family_of(parts[0]);
    if family.len() == 0 {
        None
    } else if parts.len() == 1 {
        Some(CandidateView { family, size: None })
    } else if parts.len() == 2 && parts[1].len() > 0 && parts[1][0] == 'h' {
        Some(CandidateView { family, size: Some(parts[1].skip(1)) })
    } else {
        None
    }
}

/// Reads the entries. All of them have to be readable.
pub open spec fn candidates_of(entries: Seq<Seq<char>>) -> Option<Seq<CandidateView>>
    decreases entries.len(),
{
    if entries.len() == 0 {
        Some(seq![])
    } else {
        match (candidates_of(entries.drop_last()), candidate_of(entries.last())) {
            (Some(before), Some(last)) => Some(before.push(last)),
            _ => None,
        }
    }
}

/// The option taken apart.
pub open spec fn request_of(guifont: Seq<char>) -> RequestView {
    let text = strings::trimmed(guifont);
    if text.len() == 0 {
        RequestView::Unspecified
    } else {
        match candidates_of(strings::pieces(text, ',')) {
            Some(candidates) => RequestView::Candidates(candidates),
            None => RequestView::Invalid,
        }
    }
}

/// Whether a size that was read is one that is accepted.
pub open spec fn acceptable(reading: Option<u32>) -> bool {
    reading matches Some(bits) && MIN_SIZE_BITS <= bits <= MAX_SIZE_BITS
}

/// What reading the size of the candidate at `i` gave.
pub open spec fn reading_at(readings: Seq<Option<u32>>, i: int) -> Option<u32> {
    if 0 <= i < readings.len() {
        readings[i]
    } else {
        None
    }
}

/// Whether all sizes that are named are accepted.
pub open spec fn sizes_acceptable(
    candidates: Seq<CandidateView>,
    readings: Seq<Option<u32>>,
) -> bool {
    forall|i: int|
        #![trigger candidates[i]]
        0 <= i < candidates.len() && candidates[i].size is Some ==> acceptable(
            reading_at(readings, i),
        )
}

/// The first of the sizes that are named, among the first `n` candidates.
pub open spec fn first_size(
    candidates: Seq<CandidateView>,
    readings: Seq<Option<u32>>,
    n: int,
) -> Option<u32>
    decreases n,
{
    if n <= 0 {
        None
    } else {
        match first_size(candidates, readings, n - 1) {
            Some(bits) => Some(bits),
            None => if candidates[n - 1].size is Some {
                reading_at(readings, n - 1)
            } else {
                None
            },
        }
    }
}

/// The families of the candidates.
pub open spec fn families_of(candidates: Seq<CandidateView>) -> Seq<Seq<char>> {
    Seq::new(candidates.len(), |i: int| candidates[i].family)
}

/// What the option asks for, given what reading the sizes of its candidates gave.
pub open spec fn parsed(guifont: Seq<char>, readings: Seq<Option<u32>>) -> GuiFontView {
    match request_of(guifont) {
        RequestView::Unspecified => GuiFontView::Unspecified,
        RequestView::Invalid => GuiFontView::Invalid,
        RequestView::Candidates(candidates) => if !sizes_acceptable(candidates, readings) {
            GuiFontView::Invalid
        } else {
            match first_size(candidates, readings, candidates.len() as int) {
                Some(size_bits) => GuiFontView::Spec(
                    FontSpecView { families: families_of(candidates), size_bits },
                ),
                None => GuiFontView::Unspecified,
            }
        },
    }
}

/// The texts with `, ` between them.
pub open spec fn chained(items: Seq<Seq<char>>) -> Seq<char>
    decreases items.len(),
{
    if items.len() == 0 {
        seq![]
    } else if items.len() == 1 {
        items[0]
    } else {
        chained(items.drop_last()) + ", "@ + items.last()
    }
}

/// Whether the bundled font is among the families.
pub open spec fn has_bundled(families: Seq<Seq<char>>) -> bool {
    exists|i: int|
        0 <= i < families.len() && #[trigger] strings::same_ignoring_case(
            families[i],
            BUNDLED_FAMILY@,
        )
}

/// The families to draw with, in order: those of the user, and the bundled font as the last resort.
pub open spec fn chain_of(families: Seq<Seq<char>>) -> Seq<Seq<char>> {
    if has_bundled(families) {
        families
    } else {
        families.push(BUNDLED_FAMILY@)
    }
}

/// Reads one entry of the option.
pub(crate) fn read_candidate(entry: &str) -> (candidate: Option<Candidate>)
    ensures
        (match candidate {
            Some(c) => candidate_of(entry@) == Some(c@),
            None => candidate_of(entry@) is None,
        }),
{
    let parts = strings::split(entry, ':');
    proof {
        lemma_pieces_not_empty(entry@, ':');
    }
    let ghost views = strings::texts(parts@);
    assert(views.len() == parts@.len());
    let name = strings::replace(parts[0].as_str(), '_', ' ');
    let family = strings::trim(name.as_str());
    if family.as_str().is_empty() || parts.len() > 2 {
        return None;
    }
    if parts.len() == 1 {
        return Some(Candidate { family, size: None });
    }
    assert(views[1] == parts@[1]@);
    let option = strings::chars_of(parts[1].as_str());
    if option.len() > 0 && option[0] == 'h' {
        let digits = strings::string_of(option.as_slice(), 1, option.len());
        assert(option@.subrange(1, option@.len() as int) =~= option@.skip(1));
        Some(Candidate { family, size: Some(digits) })
    } else {
        None
    }
}

/// A text always has a piece.
pub proof fn lemma_pieces_not_empty(s: Seq<char>, separator: char)
    ensures
        strings::pieces(s, separator).len() >= 1,
{
    strings::lemma_until(s, separator);
}

/// One entry that cannot be read makes the list unreadable.
proof fn lemma_unreadable(entries: Seq<Seq<char>>, n: int)
    requires
        0 <= n <= entries.len(),
        candidates_of(entries.take(n)) is None,
    ensures
        candidates_of(entries) is None,
    decreases entries.len() - n,
{
    if n < entries.len() {
        assert(entries.take(n + 1).drop_last() =~= entries.take(n));
        lemma_unreadable(entries, n + 1);
    } else {
        assert(entries.take(n) =~= entries);
    }
}

impl FontSpec {
    /// Takes the option apart. The size of each candidate is left as the text behind the `h`, to be
    /// read as a number.
    #[verifier::loop_isolation(false)]
    pub fn scan(guifont: &str) -> (request: FontRequest)
        ensures
            request@ == request_of(guifont@),
    {
        let text = strings::trim(guifont);
        if text.as_str().is_empty() {
            return FontRequest::Unspecified;
        }
        let entries = strings::split(text.as_str(), ',');
        let ghost views = strings::texts(entries@);
        let mut out: Vec<Candidate> = Vec::new();
        let mut i: usize = 0;
        assert(shown_candidates(out@) =~= seq![]);
        while i < entries.len()
            invariant
                i <= entries@.len(),
                candidates_of(views.take(i as int)) == Some(shown_candidates(out@)),
            decreases entries@.len() - i,
        {
            assert(views.take(i + 1).drop_last() =~= views.take(i as int));
            assert(views.take(i + 1).last() == entries@[i as int]@);
            let ghost was = shown_candidates(out@);
            match read_candidate(entries[i].as_str()) {
                Some(candidate) => {
                    out.push(candidate);
                    assert(shown_candidates(out@) =~= was.push(candidate@));
                },
                None => {
                    proof {
                        lemma_unreadable(views, i + 1);
                    }
                    return FontRequest::Invalid;
                },
            }
            i = i + 1;
        }
        assert(views.take(views.len() as int) =~= views);
        FontRequest::Candidates(out)
    }

    /// Reads the option. `readings` holds, for each candidate that [`FontSpec::scan`] finds, what
    /// reading its size as a number gave: the bits of the number, or nothing.
    ///
    /// The first size that is named counts, for whichever family is used in the end. Without any
    /// size the choice is left to the program.
    #[verifier::loop_isolation(false)]
    pub fn parse(guifont: &str, readings: &[Option<u32>]) -> (font: GuiFont)
        ensures
            font@ == parsed(guifont@, readings@),
    {
        let candidates = match FontSpec::scan(guifont) {
            FontRequest::Unspecified => return GuiFont::Unspecified,
            FontRequest::Invalid => return GuiFont::Invalid,
            FontRequest::Candidates(candidates) => candidates,
        };
        let ghost views = shown_candidates(candidates@);
        let mut families: Vec<String> = Vec::new();
        let mut size: Option<u32> = None;
        let mut i: usize = 0;
        while i < candidates.len()
            invariant
                i <= candidates@.len(),
                strings::texts(families@) == families_of(views).take(i as int),
                size == first_size(views, readings@, i as int),
                forall|k: int|
                    #![trigger views[k]]
                    0 <= k < i && views[k].size is Some ==> acceptable(reading_at(readings@, k)),
            decreases candidates@.len() - i,
        {
            assert(views[i as int] == candidates@[i as int]@);
            if candidates[i].size.is_some() {
                let reading: Option<u32> = if i < readings.len() {
                    readings[i]
                } else {
                    None
                };
                match reading {
                    Some(bits) => {
                        if bits < MIN_SIZE_BITS || bits > MAX_SIZE_BITS {
                            return GuiFont::Invalid;
                        }
                    },
                    None => return GuiFont::Invalid,
                }
                if size.is_none() {
                    size = reading;
                }
            }
            families.push(candidates[i].family.clone());
            assert(strings::texts(families@) =~= families_of(views).take(i + 1));
            i = i + 1;
        }
        assert(families_of(views).take(views.len() as int) =~= families_of(views));
        match size {
            Some(size_bits) => GuiFont::Spec(FontSpec { families, size_bits }),
            None => GuiFont::Unspecified,
        }
    }

    /// The first family that exists. Where none does the caller has to say so: no other font is
    /// taken in silence.
    #[verifier::loop_isolation(false)]
    pub fn primary<F: Fn(&str) -> bool>(&self, installed: F) -> (family: Option<&str>)
        requires
            forall|s: &str| call_requires(installed, (s,)),
        ensures
            (match family {
                Some(name) => exists|i: int|
                    {
                        &&& 0 <= i < self@.families.len()
                        &&& #[trigger] self@.families[i] == name@
                        &&& call_ensures(installed, (name,), true)
                        &&& forall|j: int|
                            0 <= j < i ==> refused(installed, #[trigger] self@.families[j])
                    },
                None => forall|j: int|
                    0 <= j < self@.families.len() ==> refused(installed, #[trigger] self@.families[j]),
            }),
    {
        let mut i: usize = 0;
        while i < self.families.len()
            invariant
                i <= self.families@.len(),
                forall|j: int| 0 <= j < i ==> refused(installed, #[trigger] self@.families[j]),
            decreases self.families@.len() - i,
        {
            let name = self.families[i].as_str();
            assert(self@.families[i as int] == name@);
            if installed(name) {
                return Some(name);
            }
            i = i + 1;
        }
        None
    }

    /// The families to draw with, separated by `, `: those of the user, and the bundled font as the
    /// last resort, which has the characters that the others lack.
    pub fn fallback_chain(&self) -> (chain: String)
        ensures
            chain@ == chained(chain_of(self@.families)),
    {
        let ghost all = self@.families;
        let mut out = String::new();
        let mut found = false;
        let mut i: usize = 0;
        assert(all.take(0) =~= seq![]);
        assert(out@ =~= chained(all.take(0)));
        while i < self.families.len()
            invariant
                i <= self.families@.len(),
                all == strings::texts(self.families@),
                out@ == chained(all.take(i as int)),
                found == exists|k: int|
                    0 <= k < i && #[trigger] strings::same_ignoring_case(all[k], BUNDLED_FAMILY@),
            decreases self.families@.len() - i,
        {
            assert(all.take(i + 1).drop_last() =~= all.take(i as int));
            if i > 0 {
                out.append(", ");
            }
            out.append(self.families[i].as_str());
            assert(out@ =~= chained(all.take(i + 1)));
            if strings::eq_ignore_ascii_case(self.families[i].as_str(), BUNDLED_FAMILY) {
                assert(strings::same_ignoring_case(all[i as int], BUNDLED_FAMILY@));
                found = true;
            }
            i = i + 1;
        }
        assert(all.take(all.len() as int) =~= all);
        if !found {
            assert(all.push(BUNDLED_FAMILY@).drop_last() =~= all);
            if self.families.len() > 0 {
                out.append(", ");
            }
            out.append(BUNDLED_FAMILY);
            assert(out@ =~= chained(all.push(BUNDLED_FAMILY@)));
        }
        out
    }
}

/// Whether the predicate said no to this family.
pub open spec fn refused<F: Fn(&str) -> bool>(installed: F, family: Seq<char>) -> bool {
    exists|s: &str| s@ == family && call_ensures(installed, (s,), false)
}

impl Default for FontSpec {
    fn default() -> (spec: FontSpec)
        ensures
            spec@ == (FontSpecView {
                families: seq![BUNDLED_FAMILY@],
                size_bits: DEFAULT_SIZE_BITS,
            }),
    {
        let mut families: Vec<String> = Vec::new();
        families.push(String::from_str(BUNDLED_FAMILY));
        assert(strings::texts(families@) =~= seq![BUNDLED_FAMILY@]);
        FontSpec { families, size_bits: DEFAULT_SIZE_BITS }
    }
}

/// The names that a chain lists: what stands between its commas, without the space around it, and
/// without what is empty.
pub open spec fn names_among(pieces: Seq<Seq<char>>) -> Seq<Seq<char>>
    decreases pieces.len(),
{
    if pieces.len() == 0 {
        seq![]
    } else {
        let name = strings::trimmed(pieces[0]);
        let rest = names_among(pieces.drop_first());
        if name.len() == 0 {
            rest
        } else {
            seq![name] + rest
        }
    }
}

/// The names that a chain lists.
pub open spec fn names_of(chain: Seq<char>) -> Seq<Seq<char>> {
    names_among(strings::pieces(chain, ','))
}

/// Names as Win32 takes them.
pub open spec fn wide_names(names: Seq<Seq<char>>) -> Seq<Seq<u16>> {
    Seq::new(names.len(), |i: int| utf16::encoded(names[i]).push(0))
}

/// Lists of code units, as they show.
pub open spec fn shown_names(v: Seq<Vec<u16>>) -> Seq<Seq<u16>> {
    Seq::new(v.len(), |i: int| v[i]@)
}

/// The names of a chain, one by one, for building a fallback of fonts: a text format takes no list.
pub fn fallback_names(chain: &str) -> (names: Vec<Vec<u16>>)
    ensures
        shown_names(names@) == wide_names(names_of(chain@)),
{
    let pieces = strings::split(chain, ',');
    let ghost views = strings::texts(pieces@);
    let ghost all = names_of(chain@);
    let mut names: Vec<Vec<u16>> = Vec::new();
    let ghost mut done: Seq<Seq<char>> = seq![];
    let mut i: usize = 0;
    assert(views.skip(0) =~= views);
    assert(done + all =~= all);
    assert(shown_names(names@) =~= wide_names(done));
    while i < pieces.len()
        invariant
            i <= pieces@.len(),
            views == strings::texts(pieces@),
            all == done + names_among(views.skip(i as int)),
            shown_names(names@) == wide_names(done),
        decreases pieces@.len() - i,
    {
        let ghost rest = views.skip(i as int);
        assert(rest[0] == pieces@[i as int]@);
        assert(rest.drop_first() =~= views.skip(i + 1));
        let name = strings::trim(pieces[i].as_str());
        if !name.as_str().is_empty() {
            let ghost was = done;
            let ghost before = shown_names(names@);
            let wide = utf16::wide_nul(name.as_str());
            names.push(wide);
            proof {
                done = was.push(name@);
                assert(shown_names(names@) =~= before.push(wide@));
                assert(wide_names(done) =~= wide_names(was).push(wide@));
                assert(was + (seq![name@] + names_among(views.skip(i + 1))) =~= done + names_among(
                    views.skip(i + 1),
                ));
            }
        }
        i = i + 1;
    }
    assert(done + names_among(views.skip(i as int)) =~= done);
    names
}

/// Where a family is taken from, by its place in either collection.
pub open spec fn source_of(bundled: Option<u32>, system: Option<u32>) -> Option<(FontSource, u32)> {
    match (bundled, system) {
        (Some(index), _) => Some((FontSource::Bundled, index)),
        (None, Some(index)) => Some((FontSource::System, index)),
        (None, None) => None,
    }
}

/// Where a family is taken from. The bundled font wins over one of the same name on the system, so
/// that what was measured is what is drawn.
pub fn pick_source(bundled: Option<u32>, system: Option<u32>) -> (found: Option<(FontSource, u32)>)
    ensures
        found == source_of(bundled, system),
{
    match bundled {
        Some(index) => Some((FontSource::Bundled, index)),
        None => match system {
            Some(index) => Some((FontSource::System, index)),
            None => None,
        },
    }
}

// ---- laws ----
/// The bundled font is in every chain, and is not added where it is there already.
pub proof fn law_chain_ends_in_the_bundled_font(families: Seq<Seq<char>>)
    ensures
        has_bundled(chain_of(families)),
        chain_of(chain_of(families)) == chain_of(families),
        !has_bundled(families) ==> chain_of(families).last() == BUNDLED_FAMILY@,
        forall|i: int| 0 <= i < families.len() ==> chain_of(families)[i] == families[i],
{
    if !has_bundled(families) {
        let chain = chain_of(families);
        assert(strings::same_ignoring_case(chain[families.len() as int], BUNDLED_FAMILY@));
    }
}

/// A request that is accepted names a size between 1 and 400 points and at least one family.
pub proof fn law_accepted_sizes_are_in_range(guifont: Seq<char>, readings: Seq<Option<u32>>)
    ensures
        parsed(guifont, readings) matches GuiFontView::Spec(spec) ==> {
            &&& MIN_SIZE_BITS <= spec.size_bits <= MAX_SIZE_BITS
            &&& spec.families.len() >= 1
        },
{
    if let RequestView::Candidates(candidates) = request_of(guifont) {
        if sizes_acceptable(candidates, readings) {
            lemma_first_size(candidates, readings, candidates.len() as int);
        }
    }
}

proof fn lemma_first_size(candidates: Seq<CandidateView>, readings: Seq<Option<u32>>, n: int)
    requires
        0 <= n <= candidates.len(),
        sizes_acceptable(candidates, readings),
    ensures
        first_size(candidates, readings, n) matches Some(bits) ==> {
            &&& MIN_SIZE_BITS <= bits <= MAX_SIZE_BITS
            &&& n > 0
        },
    decreases n,
{
    if n > 0 {
        lemma_first_size(candidates, readings, n - 1);
        assert(candidates[n - 1].size is Some ==> acceptable(reading_at(readings, n - 1)));
    }
}

/// A request without any size, whatever families it lists, leaves the choice to the program.
pub proof fn law_no_size_is_no_request(guifont: Seq<char>, readings: Seq<Option<u32>>)
    requires
        request_of(guifont) matches RequestView::Candidates(candidates) && (forall|i: int|
            0 <= i < candidates.len() ==> (#[trigger] candidates[i]).size is None),
    ensures
        parsed(guifont, readings) == GuiFontView::Unspecified,
{
    let candidates = request_of(guifont)->Candidates_0;
    lemma_no_size(candidates, readings, candidates.len() as int);
}

proof fn lemma_no_size(candidates: Seq<CandidateView>, readings: Seq<Option<u32>>, n: int)
    requires
        0 <= n <= candidates.len(),
        forall|i: int| 0 <= i < candidates.len() ==> (#[trigger] candidates[i]).size is None,
    ensures
        first_size(candidates, readings, n) is None,
    decreases n,
{
    if n > 0 {
        lemma_no_size(candidates, readings, n - 1);
        assert(candidates[n - 1].size is None);
    }
}

/// Whether a name survives in a chain: it is not empty, has no space around it, and no comma.
pub open spec fn chainable(name: Seq<char>) -> bool {
    &&& name.len() > 0
    &&& strings::trimmed(name) == name
    &&& !name.contains(',')
}

/// White space at the start makes no difference to a trimmed text.
proof fn lemma_trim_space(s: Seq<char>)
    ensures
        strings::trimmed(seq![' '] + s) == strings::trimmed(s),
{
    let t = seq![' '] + s;
    assert(t.drop_first() =~= s);
    assert(strings::is_white(' '));
}

/// A text split at its first comma.
proof fn lemma_split_once(head: Seq<char>, tail: Seq<char>)
    requires
        !head.contains(','),
    ensures
        strings::pieces(head + seq![','] + tail, ',') == seq![head] + strings::pieces(tail, ','),
{
    let s = head + seq![','] + tail;
    let n = head.len() as int;
    assert forall|i: int| 0 <= i < n implies s[i] != ',' by {
        assert(s[i] == head[i]);
    }
    strings::lemma_until_is(s, ',', n);
    assert(s.take(n) =~= head);
    assert(s.skip(n + 1) =~= tail);
}

/// A space in front of a chain changes none of its names.
proof fn lemma_names_after_space(s: Seq<char>)
    ensures
        names_of(seq![' '] + s) == names_of(s),
{
    let t = seq![' '] + s;
    strings::lemma_until(s, ',');
    let head = strings::until(s, ',');
    let n = head.len() as int;
    assert forall|i: int| 0 <= i < n + 1 implies t[i] != ',' by {
        if i > 0 {
            assert(t[i] == s[i - 1]);
        }
    }
    if n < s.len() {
        assert(t[n + 1] == s[n]);
    }
    strings::lemma_until_is(t, ',', n + 1);
    assert(t.take(n + 1) =~= seq![' '] + head);
    lemma_trim_space(head);
    if n == s.len() {
        assert(seq![' '] + head =~= t);
        assert(s.take(n) =~= s);
        let one = strings::pieces(s, ',');
        let two = strings::pieces(t, ',');
        assert(one.drop_first() =~= two.drop_first());
    } else {
        assert(t.skip(n + 2) =~= s.skip(n + 1));
        let one = strings::pieces(s, ',');
        let two = strings::pieces(t, ',');
        assert(one.drop_first() =~= strings::pieces(s.skip(n + 1), ','));
        assert(two.drop_first() =~= strings::pieces(s.skip(n + 1), ','));
    }
}

/// The chain with its first name taken off.
proof fn lemma_chained_front(items: Seq<Seq<char>>)
    requires
        items.len() >= 2,
    ensures
        chained(items) == items[0] + ", "@ + chained(items.drop_first()),
    decreases items.len(),
{
    if items.len() == 2 {
        assert(items.drop_last() =~= seq![items[0]]);
        assert(items.drop_first() =~= seq![items[1]]);
        reveal_with_fuel(chained, 3);
    } else {
        lemma_chained_front(items.drop_last());
        assert(items.drop_last().drop_first() =~= items.drop_first().drop_last());
        assert(chained(items) =~= items[0] + ", "@ + chained(items.drop_first()));
    }
}

/// Taking a chain apart gives back the names that it was made of.
pub proof fn law_chain_lists_its_names(items: Seq<Seq<char>>)
    requires
        items.len() >= 1,
        forall|i: int| 0 <= i < items.len() ==> chainable(#[trigger] items[i]),
    ensures
        names_of(chained(items)) == items,
    decreases items.len(),
{
    let first = items[0];
    assert(chainable(items[0]));
    if items.len() == 1 {
        assert forall|i: int| 0 <= i < first.len() implies first[i] != ',' by {
            assert(first.contains(first[i]));
        }
        strings::lemma_until_is(first, ',', first.len() as int);
        assert(first.take(first.len() as int) =~= first);
        let pieces = strings::pieces(first, ',');
        assert(pieces.drop_first() =~= seq![]);
        reveal_with_fuel(names_among, 2);
        assert(names_of(first) =~= items);
    } else {
        let rest = items.drop_first();
        assert forall|i: int| 0 <= i < rest.len() implies chainable(#[trigger] rest[i]) by {
            assert(rest[i] == items[i + 1]);
        }
        law_chain_lists_its_names(rest);
        lemma_chained_front(items);
        reveal_strlit(", ");
        let tail = seq![' '] + chained(rest);
        assert(chained(items) =~= first + seq![','] + tail);
        lemma_split_once(first, tail);
        lemma_names_after_space(chained(rest));
        let pieces = strings::pieces(chained(items), ',');
        assert(pieces.drop_first() =~= strings::pieces(tail, ','));
        assert(names_of(chained(items)) =~= seq![first] + rest);
        assert(seq![first] + rest =~= items);
    }
}

/// Trimming leaves no white space at the ends, and takes characters away only.
proof fn lemma_trimmed(s: Seq<char>)
    ensures
        strings::trimmed(strings::trimmed(s)) == strings::trimmed(s),
        forall|c: char| strings::trimmed(s).contains(c) ==> s.contains(c),
{
    lemma_trimmed_start(s);
    let t = strings::trimmed_start(s);
    lemma_trimmed_end(t);
    let u = strings::trimmed_end(t);
    assert(strings::trimmed_start(u) == u) by {
        if u.len() > 0 {
            assert(u[0] == t[0]);
        }
    }
}

proof fn lemma_trimmed_start(s: Seq<char>)
    ensures
        strings::trimmed_start(s).len() > 0 ==> !strings::is_white(strings::trimmed_start(s)[0]),
        forall|c: char| strings::trimmed_start(s).contains(c) ==> s.contains(c),
    decreases s.len(),
{
    if s.len() > 0 && strings::is_white(s[0]) {
        let rest = s.drop_first();
        lemma_trimmed_start(rest);
        assert forall|c: char| strings::trimmed_start(s).contains(c) implies s.contains(c) by {
            assert(rest.contains(c));
            let i = choose|i: int| 0 <= i < rest.len() && rest[i] == c;
            assert(s[i + 1] == c);
        }
    }
}

proof fn lemma_trimmed_end(s: Seq<char>)
    ensures
        strings::trimmed_end(s).len() <= s.len(),
        strings::trimmed_end(s) == s.take(strings::trimmed_end(s).len() as int),
        strings::trimmed_end(strings::trimmed_end(s)) == strings::trimmed_end(s),
        forall|c: char| strings::trimmed_end(s).contains(c) ==> s.contains(c),
    decreases s.len(),
{
    if s.len() > 0 && strings::is_white(s.last()) {
        let rest = s.drop_last();
        lemma_trimmed_end(rest);
        assert(strings::trimmed_end(s) =~= s.take(strings::trimmed_end(s).len() as int));
        assert forall|c: char| strings::trimmed_end(s).contains(c) implies s.contains(c) by {
            assert(rest.contains(c));
            let i = choose|i: int| 0 <= i < rest.len() && rest[i] == c;
            assert(s[i] == c);
        }
    } else {
        assert(s.take(s.len() as int) =~= s);
    }
}

/// A piece holds no separator, and only characters of the text.
proof fn lemma_piece(s: Seq<char>, separator: char, i: int)
    requires
        0 <= i < strings::pieces(s, separator).len(),
    ensures
        !strings::pieces(s, separator)[i].contains(separator),
        forall|c: char| strings::pieces(s, separator)[i].contains(c) ==> s.contains(c),
    decreases s.len(),
{
    strings::lemma_until(s, separator);
    let head = strings::until(s, separator);
    let n = head.len() as int;
    if n == s.len() {
        assert(s.take(n) =~= s);
    } else {
        let rest = s.skip(n + 1);
        let all = strings::pieces(s, separator);
        if i == 0 {
            assert(all[0] == head);
            assert forall|c: char| head.contains(c) implies s.contains(c) by {
                let k = choose|k: int| 0 <= k < head.len() && head[k] == c;
                assert(s[k] == c);
            }
        } else {
            lemma_piece(rest, separator, i - 1);
            assert(all[i] == strings::pieces(rest, separator)[i - 1]);
            assert forall|c: char| all[i].contains(c) implies s.contains(c) by {
                assert(rest.contains(c));
                let k = choose|k: int| 0 <= k < rest.len() && rest[k] == c;
                assert(s[k + n + 1] == c);
            }
        }
    }
}

/// The family of a readable entry can be put into a chain, unless the entry holds a comma.
proof fn lemma_candidate_is_chainable(entry: Seq<char>)
    requires
        !entry.contains(','),
    ensures
        candidate_of(entry) matches Some(c) ==> chainable(c.family),
{
    lemma_pieces_not_empty(entry, ':');
    lemma_piece(entry, ':', 0);
    let name = strings::pieces(entry, ':')[0];
    let spaced = strings::replaced(name, '_', ' ');
    lemma_trimmed(spaced);
    assert(!spaced.contains(',')) by {
        if spaced.contains(',') {
            let i = choose|i: int| 0 <= i < spaced.len() && spaced[i] == ',';
            assert(name[i] == ',');
            assert(name.contains(','));
        }
    }
}

proof fn lemma_candidates_are_chainable(entries: Seq<Seq<char>>)
    requires
        forall|i: int| 0 <= i < entries.len() ==> !(#[trigger] entries[i]).contains(','),
    ensures
        candidates_of(entries) matches Some(candidates) ==> forall|i: int|
            0 <= i < candidates.len() ==> chainable((#[trigger] candidates[i]).family),
    decreases entries.len(),
{
    if entries.len() > 0 {
        lemma_candidates_are_chainable(entries.drop_last());
        assert(!entries[entries.len() - 1].contains(','));
        lemma_candidate_is_chainable(entries.last());
    }
}

/// The families of an accepted request can be told apart in their chain: taking the chain apart
/// gives the families, and the bundled font after them where it was not among them.
pub proof fn law_chain_of_an_accepted_request(guifont: Seq<char>, readings: Seq<Option<u32>>)
    ensures
        parsed(guifont, readings) matches GuiFontView::Spec(spec) ==> names_of(
            chained(chain_of(spec.families)),
        ) == chain_of(spec.families),
{
    if let GuiFontView::Spec(spec) = parsed(guifont, readings) {
        let text = strings::trimmed(guifont);
        let entries = strings::pieces(text, ',');
        assert forall|i: int| 0 <= i < entries.len() implies !(#[trigger] entries[i]).contains(
            ',',
        ) by {
            lemma_piece(text, ',', i);
        }
        lemma_candidates_are_chainable(entries);
        let candidates = candidates_of(entries)->0;
        law_accepted_sizes_are_in_range(guifont, readings);
        let chain = chain_of(spec.families);
        assert forall|i: int| 0 <= i < chain.len() implies chainable(#[trigger] chain[i]) by {
            if i < spec.families.len() {
                assert(chain[i] == candidates[i].family);
            } else {
                lemma_bundled_is_chainable();
            }
        }
        law_chain_lists_its_names(chain);
    }
}

proof fn lemma_bundled_is_chainable()
    ensures
        chainable(BUNDLED_FAMILY@),
{
    reveal_strlit("Moralerspace Argon HW");
    let name = BUNDLED_FAMILY@;
    assert(name.len() == 21);
    assert(name[0] == 'M' && name[20] == 'W');
    assert(!strings::is_white(name[0]) && !strings::is_white(name[20]));
    assert forall|i: int| 0 <= i < name.len() implies name[i] != ',' by {}
}

/// Whether a name is read as it stands: it is not empty, no white space is around it, and neither an
/// underscore nor a colon is in it.
pub open spec fn plain_name(name: Seq<char>) -> bool {
    &&& name.len() > 0
    &&& !strings::is_white(name[0])
    &&& !strings::is_white(name.last())
    &&& !name.contains('_')
    &&& !name.contains(':')
}

/// An underscore in a name stands for a space, and the space around a name is no part of it.
pub proof fn law_family(name: Seq<char>, before: Seq<char>, behind: Seq<char>)
    requires
        name.len() > 0,
        !strings::is_white(name[0]) && name[0] != '_',
        !strings::is_white(name.last()) && name.last() != '_',
        forall|i: int| 0 <= i < before.len() ==> #[trigger] before[i] == ' ' || before[i] == '_',
        forall|i: int| 0 <= i < behind.len() ==> #[trigger] behind[i] == ' ' || behind[i] == '_',
    ensures
        ({
            let family = family_of(before + name + behind);
            &&& family.len() == name.len()
            &&& forall|i: int|
                0 <= i < name.len() ==> #[trigger] family[i] == (if name[i] == '_' {
                    ' '
                } else {
                    name[i]
                })
        }),
{
    let a = strings::replaced(before, '_', ' ');
    let b = strings::replaced(name, '_', ' ');
    let c = strings::replaced(behind, '_', ' ');
    assert(strings::replaced(before + name + behind, '_', ' ') =~= a + b + c);
    assert(strings::is_white(' '));
    assert forall|i: int| 0 <= i < a.len() implies strings::is_white(#[trigger] a[i]) by {
        assert(before[i] == ' ' || before[i] == '_');
    }
    assert forall|i: int| 0 <= i < c.len() implies strings::is_white(#[trigger] c[i]) by {
        assert(behind[i] == ' ' || behind[i] == '_');
    }
    strings::law_trimmed(a, b, c);
}

proof fn lemma_plain_family(name: Seq<char>)
    requires
        plain_name(name),
    ensures
        family_of(name) == name,
{
    assert forall|i: int| 0 <= i < name.len() implies name[i] != '_' by {
        assert(name.contains(name[i]));
    }
    assert(strings::replaced(name, '_', ' ') =~= name);
    strings::law_trimmed(seq![], name, seq![]);
    assert(seq![] + name + seq![] =~= name);
}

/// A family with `:h` and a size behind it asks for both.
pub proof fn law_entry_with_a_size(family: Seq<char>, size: Seq<char>)
    requires
        plain_name(family),
        !size.contains(':'),
    ensures
        candidate_of(family + seq![':', 'h'] + size) == Some(
            CandidateView { family, size: Some(size) },
        ),
{
    let option = seq!['h'] + size;
    assert(!option.contains(':')) by {
        if option.contains(':') {
            let i = choose|i: int| 0 <= i < option.len() && option[i] == ':';
            assert(size[i - 1] == ':');
        }
    }
    lemma_plain_family(family);
    assert(family + seq![':', 'h'] + size =~= family.push(':') + option);
    strings::law_pieces(family, ':', option);
    strings::law_pieces(option, ':', seq![]);
    assert(option.skip(1) =~= size);
}

/// A family alone asks for no size. Any option but one size is refused, and so is an entry without a
/// family.
pub proof fn law_other_entries(
    family: Seq<char>,
    option: Seq<char>,
    more: Seq<char>,
    blank: Seq<char>,
)
    requires
        plain_name(family),
        !option.contains(':'),
        forall|i: int| 0 <= i < blank.len() ==> #[trigger] blank[i] == ' ' || blank[i] == '_',
    ensures
        candidate_of(family) == Some(CandidateView { family, size: None }),
        option.len() == 0 || option[0] != 'h' ==> candidate_of(family.push(':') + option) is None,
        candidate_of(family.push(':') + (option.push(':') + more)) is None,
        candidate_of(blank) is None,
        candidate_of(blank.push(':') + more) is None,
{
    lemma_plain_family(family);
    strings::law_pieces(family, ':', option);
    strings::law_pieces(option, ':', more);
    strings::law_pieces(family, ':', option.push(':') + more);
    lemma_pieces_not_empty(more, ':');
    let spaces = strings::replaced(blank, '_', ' ');
    assert(strings::is_white(' '));
    assert forall|i: int| 0 <= i < spaces.len() implies strings::is_white(#[trigger] spaces[i]) by {
        assert(blank[i] == ' ' || blank[i] == '_');
    }
    strings::law_trimmed(spaces, seq![], seq![]);
    assert(spaces + Seq::<char>::empty() + Seq::<char>::empty() =~= spaces);
    assert(!blank.contains(':')) by {
        if blank.contains(':') {
            let i = choose|i: int| 0 <= i < blank.len() && blank[i] == ':';
            assert(blank[i] == ' ' || blank[i] == '_');
        }
    }
    strings::law_pieces(blank, ':', more);
}

/// The option lists its entries between commas, without the white space around it. Each of them is
/// read for itself, and one that cannot be read spoils them all.
pub proof fn law_request(before: Seq<char>, text: Seq<char>, behind: Seq<char>)
    requires
        forall|i: int| 0 <= i < before.len() ==> strings::is_white(#[trigger] before[i]),
        forall|i: int| 0 <= i < behind.len() ==> strings::is_white(#[trigger] behind[i]),
        text.len() > 0 ==> !strings::is_white(text[0]) && !strings::is_white(text.last()),
    ensures
        text.len() == 0 ==> request_of(before + text + behind) == RequestView::Unspecified,
        text.len() > 0 ==> {
            let entries = strings::pieces(text, ',');
            let request = request_of(before + text + behind);
            &&& request == RequestView::Invalid <==> exists|i: int|
                0 <= i < entries.len() && candidate_of(#[trigger] entries[i]) is None
            &&& request == RequestView::Invalid || request is Candidates
            &&& request matches RequestView::Candidates(candidates) ==> {
                &&& candidates.len() == entries.len()
                &&& forall|i: int|
                    0 <= i < entries.len() ==> candidate_of(#[trigger] entries[i]) == Some(
                        candidates[i],
                    )
            }
        },
{
    strings::law_trimmed(before, text, behind);
    lemma_candidates(strings::pieces(text, ','));
}

proof fn lemma_candidates(entries: Seq<Seq<char>>)
    ensures
        candidates_of(entries) is None <==> exists|i: int|
            0 <= i < entries.len() && candidate_of(#[trigger] entries[i]) is None,
        candidates_of(entries) matches Some(candidates) ==> {
            &&& candidates.len() == entries.len()
            &&& forall|i: int|
                0 <= i < entries.len() ==> candidate_of(#[trigger] entries[i]) == Some(
                    candidates[i],
                )
        },
    decreases entries.len(),
{
    if entries.len() > 0 {
        let rest = entries.drop_last();
        let n = entries.len() - 1;
        lemma_candidates(rest);
        assert forall|i: int| 0 <= i < n implies candidate_of(#[trigger] entries[i])
            == candidate_of(rest[i]) by {}
        assert(candidate_of(entries[n]) == candidate_of(entries.last()));
        if candidates_of(rest) is None {
            let i = choose|i: int|
                0 <= i < rest.len() && candidate_of(#[trigger] rest[i]) is None;
            assert(candidate_of(entries[i]) is None);
        }
    }
}

/// One size, that of the first entry that names one, counts for all families, and the families are
/// kept in their order. Every size that is named has to lie between 1 and 400 points.
pub proof fn law_request_with_a_size(
    guifont: Seq<char>,
    candidates: Seq<CandidateView>,
    readings: Seq<Option<u32>>,
    k: int,
)
    requires
        request_of(guifont) == RequestView::Candidates(candidates),
        readings.len() == candidates.len(),
        0 <= k < candidates.len(),
        candidates[k].size is Some,
        forall|i: int| 0 <= i < k ==> (#[trigger] candidates[i]).size is None,
    ensures
        (exists|i: int|
            #![trigger candidates[i]]
            0 <= i < candidates.len() && candidates[i].size is Some && !(readings[i] matches Some(
                bits,
            ) && 0x3f80_0000 <= bits <= 0x43c8_0000)) ==> parsed(guifont, readings)
            == GuiFontView::Invalid,
        (forall|i: int|
            #![trigger candidates[i]]
            0 <= i < candidates.len() && candidates[i].size is Some ==> (readings[i] matches Some(
                bits,
            ) && 0x3f80_0000 <= bits <= 0x43c8_0000)) ==> {
            &&& parsed(guifont, readings) matches GuiFontView::Spec(spec)
            &&& Some(spec.size_bits) == readings[k]
            &&& spec.families.len() == candidates.len()
            &&& forall|i: int|
                0 <= i < candidates.len() ==> #[trigger] spec.families[i] == candidates[i].family
        },
{
    lemma_size_found(candidates, readings, k, candidates.len() as int);
    if exists|i: int|
        #![trigger candidates[i]]
        0 <= i < candidates.len() && candidates[i].size is Some && !(readings[i] matches Some(bits)
            && 0x3f80_0000 <= bits <= 0x43c8_0000) {
        let i = choose|i: int|
            #![trigger candidates[i]]
            0 <= i < candidates.len() && candidates[i].size is Some && !(readings[i] matches Some(
                bits,
            ) && 0x3f80_0000 <= bits <= 0x43c8_0000);
        assert(candidates[i].size is Some && !acceptable(reading_at(readings, i)));
    } else {
        assert(sizes_acceptable(candidates, readings)) by {
            assert forall|i: int|
                #![trigger candidates[i]]
                0 <= i < candidates.len() && candidates[i].size is Some implies acceptable(
                reading_at(readings, i),
            ) by {}
        }
    }
}

proof fn lemma_size_found(
    candidates: Seq<CandidateView>,
    readings: Seq<Option<u32>>,
    k: int,
    n: int,
)
    requires
        readings.len() == candidates.len(),
        0 <= k < candidates.len(),
        candidates[k].size is Some,
        forall|i: int| 0 <= i < k ==> (#[trigger] candidates[i]).size is None,
        0 <= n <= candidates.len(),
    ensures
        n <= k ==> first_size(candidates, readings, n) is None,
        n > k && readings[k] is Some ==> first_size(candidates, readings, n) == readings[k],
    decreases n,
{
    if n > 0 {
        lemma_size_found(candidates, readings, k, n - 1);
        if n <= k {
            assert(candidates[n - 1].size is None);
        }
    }
}

/// The chain lists its families with a comma and a space between two, and the bundled font after
/// them where no family is the bundled one, in whatever case it is written.
pub proof fn law_chain(first: Seq<char>, rest: Seq<Seq<char>>)
    ensures
        chained(seq![]) == Seq::<char>::empty(),
        chained(seq![first]) == first,
        rest.len() > 0 ==> chained(seq![first] + rest) == first + ", "@ + chained(rest),
        (exists|i: int|
            0 <= i < rest.len() && #[trigger] strings::same_ignoring_case(
                rest[i],
                "Moralerspace Argon HW"@,
            )) ==> chain_of(rest) == rest,
        (forall|i: int|
            0 <= i < rest.len() ==> !#[trigger] strings::same_ignoring_case(
                rest[i],
                "Moralerspace Argon HW"@,
            )) ==> chain_of(rest) == rest.push("Moralerspace Argon HW"@),
{
    if rest.len() > 0 {
        lemma_chained_front(seq![first] + rest);
        assert((seq![first] + rest).drop_first() =~= rest);
    }
}

/// A chain is taken apart at its commas, name by name, and what is blank between two of them is no
/// name.
pub proof fn law_names(
    before: Seq<char>,
    name: Seq<char>,
    behind: Seq<char>,
    rest: Seq<char>,
)
    requires
        forall|i: int| 0 <= i < before.len() ==> strings::is_white(#[trigger] before[i]),
        forall|i: int| 0 <= i < behind.len() ==> strings::is_white(#[trigger] behind[i]),
        name.len() > 0 ==> !strings::is_white(name[0]) && !strings::is_white(name.last()),
        !(before + name + behind).contains(','),
    ensures
        name.len() > 0 ==> names_of((before + name + behind).push(',') + rest) == seq![name]
            + names_of(rest),
        name.len() == 0 ==> names_of((before + name + behind).push(',') + rest) == names_of(rest),
        name.len() > 0 ==> names_of(before + name + behind) == seq![name],
        name.len() == 0 ==> names_of(before + name + behind).len() == 0,
{
    let piece = before + name + behind;
    strings::law_trimmed(before, name, behind);
    strings::law_pieces(piece, ',', rest);
    let all = strings::pieces(piece.push(',') + rest, ',');
    assert(all.drop_first() =~= strings::pieces(rest, ','));
    let one = strings::pieces(piece, ',');
    assert(one.drop_first() =~= seq![]);
    reveal_with_fuel(names_among, 2);
    if name.len() > 0 {
        assert(names_of(piece) =~= seq![name]);
    }
}

/// Names are handed to the system in UTF-16 with a zero behind each.
pub proof fn law_wide_names(names: Seq<Seq<char>>, i: int)
    requires
        0 <= i < names.len(),
    ensures
        wide_names(names).len() == names.len(),
        wide_names(names)[i] == utf16::encoded(names[i]) + seq![0u16],
        DEFAULT_SIZE_BITS == 0x4140_0000,
{
    assert(wide_names(names)[i] =~= utf16::encoded(names[i]) + seq![0u16]);
}

/// The bundled font wins over one of the system, and a family that neither has is not found.
pub proof fn law_source(index: u32, other: Option<u32>)
    ensures
        source_of(Some(index), other) == Some((FontSource::Bundled, index)),
        source_of(None, Some(index)) == Some((FontSource::System, index)),
        source_of(None, None) is None,
{
}

} // verus!
