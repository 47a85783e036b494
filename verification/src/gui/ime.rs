//! Text that the input method has not committed yet.
//!
//! The input method draws nothing itself; what it is composing is kept here and drawn in place. While
//! a composition runs, keys are not handed to nvim: the input method has eaten them already.

use vstd::prelude::*;
use vstd::utf8::*;

verus! {

/// The text being composed. `target` is the part under conversion, as a range of bytes.
#[derive(Debug, PartialEq, Eq)]
pub struct Preedit {
    pub text: String,
    pub target: Option<(usize, usize)>,
}

/// Whether a composition runs, and what it holds.
#[derive(Debug)]
pub struct ImeState {
    composing: bool,
    preedit: Preedit,
}

#[verifier::ext_equal]
pub struct PreeditView {
    pub text: Seq<char>,
    pub target: Option<(usize, usize)>,
}

#[verifier::ext_equal]
pub struct ImeView {
    pub composing: bool,
    pub preedit: PreeditView,
}

/// Nothing is being composed.
pub open spec fn no_preedit() -> PreeditView {
    PreeditView { text: seq![], target: None }
}

/// Whether the range is one of `text`: in order, inside it, and on character boundaries.
pub open spec fn is_range_of(text: Seq<char>, start: int, end: int) -> bool {
    let bytes = encode_utf8(text);
    &&& start <= end <= bytes.len()
    &&& is_char_boundary(bytes, start)
    &&& is_char_boundary(bytes, end)
}

/// What an update of the composition leaves: a range that is none of the text is dropped, since
/// cutting the text there would break it.
pub open spec fn updated(text: Seq<char>, target: Option<(usize, usize)>) -> PreeditView {
    PreeditView {
        text,
        target: match target {
            Some((start, end)) => if is_range_of(text, start as int, end as int) {
                Some((start, end))
            } else {
                None
            },
            None => None,
        },
    }
}

impl ImeView {
    /// A composition starts.
    pub open spec fn begun(self) -> ImeView {
        ImeView { composing: true, preedit: no_preedit() }
    }

    /// The composed text changed.
    pub open spec fn composed(self, text: Seq<char>, target: Option<(usize, usize)>) -> ImeView {
        ImeView { preedit: updated(text, target), ..self }
    }

    /// The text was committed.
    pub open spec fn committed(self) -> ImeView {
        ImeView { preedit: no_preedit(), ..self }
    }

    /// The composition ended.
    pub open spec fn cleared(self) -> ImeView {
        ImeView { composing: false, preedit: no_preedit() }
    }
}

impl View for Preedit {
    type V = PreeditView;

    open spec fn view(&self) -> PreeditView {
        PreeditView { text: self.text@, target: self.target }
    }
}

impl View for ImeState {
    type V = ImeView;

    closed spec fn view(&self) -> ImeView {
        ImeView { composing: self.composing, preedit: self.preedit@ }
    }
}

impl Preedit {
    pub fn is_empty(&self) -> (empty: bool)
        ensures
            empty == (self@.text.len() == 0),
    {
        self.text.as_str().is_empty()
    }
}

impl Default for Preedit {
    fn default() -> (preedit: Preedit)
        ensures
            preedit@ == no_preedit(),
    {
        let preedit = Preedit { text: String::new(), target: None };
        assert(preedit@ =~= no_preedit());
        preedit
    }
}

impl Default for ImeState {
    fn default() -> (ime: ImeState)
        ensures
            ime@ == (ImeView { composing: false, preedit: no_preedit() }),
    {
        ImeState { composing: false, preedit: Preedit::default() }
    }
}

impl ImeState {
    /// A composition starts.
    pub fn begin(&mut self)
        ensures
            final(self)@ == old(self)@.begun(),
    {
        self.composing = true;
        self.preedit = Preedit::default();
    }

    /// The composed text changed. A range that does not fall on its characters is dropped.
    pub fn set_preedit(&mut self, text: String, target: Option<(usize, usize)>)
        ensures
            final(self)@ == old(self)@.composed(text@, target),
    {
        let kept = match target {
            Some((start, end)) => {
                let len: usize = text.as_str().as_bytes().len();
                if start <= end && end <= len && text.as_str().is_char_boundary(start)
                    && text.as_str().is_char_boundary(end) {
                    Some((start, end))
                } else {
                    None
                }
            },
            None => None,
        };
        self.preedit = Preedit { text, target: kept };
    }

    /// The text was committed. The composition itself runs on until it is cleared.
    pub fn commit(&mut self)
        ensures
            final(self)@ == old(self)@.committed(),
    {
        self.preedit = Preedit::default();
    }

    /// The composition ended, or the window lost the focus. Nothing is left hanging.
    pub fn clear(&mut self)
        ensures
            final(self)@ == old(self)@.cleared(),
    {
        self.composing = false;
        self.preedit = Preedit::default();
    }

    /// Whether a composition runs. Keys are kept from nvim meanwhile.
    pub fn composing(&self) -> (composing: bool)
        ensures
            composing == self@.composing,
    {
        self.composing
    }

    /// The text to draw, if there is any.
    pub fn preedit(&self) -> (preedit: Option<&Preedit>)
        ensures
            (match preedit {
                Some(p) => p@ == self@.preedit && p@.text.len() > 0,
                None => self@.preedit.text.len() == 0,
            }),
    {
        if self.preedit.is_empty() {
            None
        } else {
            Some(&self.preedit)
        }
    }
}

/// The part under conversion can be cut out of the text: whatever range the input method reports,
/// the one that is kept splits the text into texts.
pub proof fn law_kept_target_splits_the_text(text: Seq<char>, target: Option<(usize, usize)>)
    ensures
        updated(text, target).target matches Some((start, end)) ==> {
            let bytes = encode_utf8(text);
            &&& start <= end <= bytes.len()
            &&& valid_utf8(bytes.subrange(0, start as int))
            &&& valid_utf8(bytes.subrange(start as int, bytes.len() as int))
            &&& valid_utf8(bytes.subrange(0, end as int))
            &&& valid_utf8(bytes.subrange(end as int, bytes.len() as int))
        },
{
    encode_utf8_valid_utf8(text);
    if let Some((start, end)) = updated(text, target).target {
        valid_utf8_split(encode_utf8(text), start as int);
        valid_utf8_split(encode_utf8(text), end as int);
    }
}

/// What is composed is kept as it is, and so is a range of it that falls on its characters; any other
/// range is dropped.
pub proof fn law_composed_text_is_kept(text: Seq<char>, start: usize, end: usize)
    ensures
        updated(text, None) == (PreeditView { text, target: None }),
        updated(text, Some((start, end))).text == text,
        updated(text, Some((start, end))).target == (if start <= end && end <= encode_utf8(
            text,
        ).len() && is_char_boundary(encode_utf8(text), start as int) && is_char_boundary(
            encode_utf8(text),
            end as int,
        ) {
            Some((start, end))
        } else {
            None
        }),
        no_preedit() == (PreeditView { text: seq![], target: None }),
{
}

/// A composition runs from its start until it is cleared, whatever is composed and committed
/// meanwhile, and text is left over neither from before its start nor behind its end.
pub proof fn law_composition(ime: ImeView, text: Seq<char>, target: Option<(usize, usize)>)
    ensures
        ime.begun().composing,
        ime.begun().preedit.text.len() == 0 && ime.begun().preedit.target is None,
        ime.composed(text, target).composing == ime.composing,
        ime.composed(text, target).preedit.text == text,
        ime.composed(text, target).preedit.target is Some ==> ime.composed(
            text,
            target,
        ).preedit.target == target,
        ime.committed().composing == ime.composing,
        ime.committed().preedit.text.len() == 0 && ime.committed().preedit.target is None,
        !ime.cleared().composing,
        ime.cleared().preedit.text.len() == 0 && ime.cleared().preedit.target is None,
        ime.begun().composed(text, target).committed() == ime.begun(),
{
}

} // verus!
