//! Text as keys.

use vstd::prelude::*;

use crate::strings;

verus! {

/// How a character is written in nvim's notation for keys. `<` starts the name of a key there.
pub open spec fn key_of(c: char) -> Seq<char> {
    if c == '<' {
        seq!['<', 'l', 't', '>']
    } else {
        seq![c]
    }
}

/// The keys that type a text.
pub open spec fn keys_of(text: Seq<char>) -> Seq<char>
    decreases text.len(),
{
    if text.len() == 0 {
        seq![]
    } else {
        key_of(text[0]) + keys_of(text.skip(1))
    }
}

/// What keys type that are characters or `<lt>`.
pub open spec fn typed(keys: Seq<char>) -> Seq<char>
    decreases keys.len(),
{
    if keys.len() == 0 {
        seq![]
    } else if keys.len() >= 4 && keys.take(4) == key_of('<') {
        seq!['<'] + typed(keys.skip(4))
    } else {
        seq![keys[0]] + typed(keys.skip(1))
    }
}

/// The keys that type a text that was committed.
pub fn committed(text: &str) -> (keys: String)
    ensures
        keys@ == keys_of(text@),
{
    let chars = strings::chars_of(text);
    let mut keys = String::new();
    let mut i: usize = 0;
    assert(text@.skip(0) =~= text@);
    while i < chars.len()
        invariant
            i <= chars@.len(),
            chars@ == text@,
            keys@ + keys_of(text@.skip(i as int)) == keys_of(text@),
        decreases chars@.len() - i,
    {
        let ghost rest = text@.skip(i as int);
        let ghost was = keys@;
        assert(rest.skip(1) =~= text@.skip(i + 1));
        if chars[i] == '<' {
            keys.push('<');
            keys.push('l');
            keys.push('t');
            keys.push('>');
        } else {
            keys.push(chars[i]);
        }
        assert(keys@ =~= was + key_of(rest[0]));
        assert(keys@ + keys_of(rest.skip(1)) =~= was + keys_of(rest));
        i = i + 1;
    }
    assert(keys@ =~= keys_of(text@));
    keys
}

/// The modifiers that were held with a key.
#[derive(Clone, Copy, Debug, PartialEq, Eq, Structural)]
pub struct Held {
    pub control: bool,
    pub shift: bool,
    pub alt: bool,
    pub logo: bool,
}

/// The modifiers in nvim's notation.
pub open spec fn prefix(held: Held) -> Seq<char> {
    (if held.control {
        "C-"@
    } else {
        ""@
    }) + (if held.shift {
        "S-"@
    } else {
        ""@
    }) + (if held.alt {
        "M-"@
    } else {
        ""@
    }) + (if held.logo {
        "D-"@
    } else {
        ""@
    })
}

/// The key of this name with these modifiers.
pub open spec fn named_key(name: Seq<char>, held: Held) -> Seq<char> {
    "<"@ + prefix(held) + name + ">"@
}

/// The key of this name with these modifiers, as in `<C-Left>`.
pub fn named(name: &str, held: Held) -> (keys: String)
    ensures
        keys@ == named_key(name@, held),
{
    let mut keys = String::from_str("<");
    if held.control {
        keys.append("C-");
    }
    if held.shift {
        keys.append("S-");
    }
    if held.alt {
        keys.append("M-");
    }
    if held.logo {
        keys.append("D-");
    }
    keys.append(name);
    keys.append(">");
    proof {
        reveal_strlit("");
    }
    assert(keys@ =~= named_key(name@, held));
    keys
}

/// The keys for a key that types `text`. Shift is in the text already. With another modifier a single
/// character is a key of its own; anything longer is typed as it is.
pub fn typing(text: &str, held: Held) -> (keys: String)
    ensures
        keys@ == (if (held.control || held.alt || held.logo) && text@.len() == 1 {
            named_key(
                if text@[0] == '<' {
                    "lt"@
                } else {
                    text@
                },
                Held { shift: false, ..held },
            )
        } else {
            keys_of(text@)
        }),
{
    let chars = strings::chars_of(text);
    if (held.control || held.alt || held.logo) && chars.len() == 1 {
        let held = Held { shift: false, ..held };
        if chars[0] == '<' {
            named("lt", held)
        } else {
            named(text, held)
        }
    } else {
        committed(text)
    }
}

/// What is typed is what was committed, `<` and all.
pub proof fn law_committed_text_is_typed(text: Seq<char>)
    ensures
        typed(keys_of(text)) == text,
    decreases text.len(),
{
    if text.len() > 0 {
        let rest = text.skip(1);
        law_committed_text_is_typed(rest);
        let keys = keys_of(text);
        if text[0] == '<' {
            assert(keys.take(4) =~= key_of('<'));
            assert(keys.skip(4) =~= keys_of(rest));
        } else {
            assert(keys[0] == text[0]);
            assert(keys.len() >= 4 ==> keys.take(4)[0] == text[0]);
            assert(keys.skip(1) =~= keys_of(rest));
        }
        assert(seq![text[0]] + rest =~= text);
    }
}

/// Text is typed character by character, each as itself, but for `<`, which is named.
pub proof fn law_each_character_is_typed(c: char, rest: Seq<char>)
    ensures
        keys_of(seq![]) == Seq::<char>::empty(),
        c != '<' ==> keys_of(seq![c] + rest) == seq![c] + keys_of(rest),
        keys_of(seq!['<'] + rest) == seq!['<', 'l', 't', '>'] + keys_of(rest),
{
    assert((seq![c] + rest).skip(1) =~= rest);
    assert((seq!['<'] + rest).skip(1) =~= rest);
}

/// A key is written by its name between angle brackets, with the modifiers that are held in front of
/// it, each once: control, shift, alt and the logo key.
pub proof fn law_named_keys(name: Seq<char>, held: Held)
    ensures
        named_key(name, held).len() == name.len() + 2 + (if held.control {
            2int
        } else {
            0
        }) + (if held.shift {
            2int
        } else {
            0
        }) + (if held.alt {
            2int
        } else {
            0
        }) + (if held.logo {
            2int
        } else {
            0
        }),
        named_key(
            name,
            Held { control: false, shift: false, alt: false, logo: false },
        ) == seq!['<'] + name + seq!['>'],
        held.control ==> named_key(name, held) == seq!['<', 'C', '-'] + named_key(
            name,
            Held { control: false, ..held },
        ).skip(1),
        !held.control && held.shift ==> named_key(name, held) == seq!['<', 'S', '-'] + named_key(
            name,
            Held { shift: false, ..held },
        ).skip(1),
        !held.control && !held.shift && held.alt ==> named_key(name, held) == seq!['<', 'M', '-']
            + named_key(name, Held { alt: false, ..held }).skip(1),
        !held.control && !held.shift && !held.alt && held.logo ==> named_key(name, held) == seq![
            '<',
            'D',
            '-',
        ] + named_key(name, Held { logo: false, ..held }).skip(1),
{
    reveal_strlit("<");
    reveal_strlit(">");
    reveal_strlit("C-");
    reveal_strlit("S-");
    reveal_strlit("M-");
    reveal_strlit("D-");
    reveal_strlit("");
    let none = Held { control: false, shift: false, alt: false, logo: false };
    assert(named_key(name, none) =~= seq!['<'] + name + seq!['>']);
    let k = named_key(name, held);
    if held.control {
        let less = named_key(name, Held { control: false, ..held });
        assert(k =~= seq!['<', 'C', '-'] + less.skip(1));
    } else if held.shift {
        let less = named_key(name, Held { shift: false, ..held });
        assert(k =~= seq!['<', 'S', '-'] + less.skip(1));
    } else if held.alt {
        let less = named_key(name, Held { alt: false, ..held });
        assert(k =~= seq!['<', 'M', '-'] + less.skip(1));
    } else if held.logo {
        let less = named_key(name, Held { logo: false, ..held });
        assert(k =~= seq!['<', 'D', '-'] + less.skip(1));
    }
}

} // verus!
