//! Display names and addresses taken from `From:` / `To:` header values such
//! as `"Jane Doe" <jane@example.com>`.

use crate::text::{
    chars_of, find, find_char, lemma_find_char_props, push_all, remove_char, slice_chars, string_of,
    trim, trim_char, trim_chars, trim_matches, without_char,
};
use vstd::prelude::*;

verus! {

/// What is shown for a thread's sender.
///
/// A missing sender shows as `Unknown Sender`. When the value holds a `<`,
/// the trimmed text before it is the name; when that text is empty the whole
/// value, without angle brackets and trimmed, is used instead. Double quotes
/// are removed last.
pub open spec fn clean_sender_spec(raw: Option<Seq<char>>) -> Seq<char> {
    let s = match raw {
        Some(r) => r,
        None => "Unknown Sender"@,
    };
    let named = match find_char(s, '<') {
        Some(i) => if trim(s.take(i)).len() > 0 {
            trim(s.take(i))
        } else {
            trim(remove_char(remove_char(s, '<'), '>'))
        },
        None => s,
    };
    remove_char(named, '"')
}

/// Cleans a raw sender header value for display in a thread list.
pub fn clean_sender_name(raw: Option<String>) -> (r: String)
    ensures
        r@ == clean_sender_spec(
            match raw {
                Some(s) => Some(s@),
                None => None,
            },
        ),
{
    let s: Vec<char> = match &raw {
        Some(r) => chars_of(r.as_str()),
        None => chars_of("Unknown Sender"),
    };
    let named: Vec<char> = match find(s.as_slice(), '<') {
        Some(i) => {
            let before = slice_chars(s.as_slice(), 0, i);
            assert(before@ == s@.take(i as int));
            let name = trim_chars(before.as_slice());
            if name.len() > 0 {
                name
            } else {
                let a = without_char(s.as_slice(), '<');
                let b = without_char(a.as_slice(), '>');
                trim_chars(b.as_slice())
            }
        },
        None => s,
    };
    let out = without_char(named.as_slice(), '"');
    string_of(out.as_slice())
}

/// The part of a header value before its first `<`, trimmed.
pub open spec fn display_part(s: Seq<char>) -> Seq<char> {
    match find_char(s, '<') {
        Some(i) => trim(s.take(i)),
        None => trim(s),
    }
}

/// The text before the first `<` of a sender value, trimmed: the name that
/// search suggestions show for a sender.
pub fn sender_display(sender: &[char]) -> (r: Vec<char>)
    ensures
        r@ == display_part(sender@),
{
    match find(sender, '<') {
        Some(i) => {
            let before = slice_chars(sender, 0, i);
            trim_chars(before.as_slice())
        },
        None => trim_chars(sender),
    }
}

/// The name of an address `Name <addr>`: the trimmed text before `<`
/// without surrounding double quotes; the whole value when it has no `<`.
pub open spec fn address_name(p: Seq<char>) -> Seq<char> {
    match find_char(p, '<') {
        Some(i) => trim_char(trim(p.take(i)), '"'),
        None => p,
    }
}

/// The mailbox of an address `Name <addr>`: what follows `<`, without
/// surrounding `>` and trimmed; the whole value when it has no `<`.
pub open spec fn address_email(p: Seq<char>) -> Seq<char> {
    match find_char(p, '<') {
        Some(i) => trim(trim_char(p.skip(i + 1), '>')),
        None => p,
    }
}

/// Splits an address into its name (empty when there is no `<`) and its
/// mailbox.
pub fn split_address(p: &[char]) -> (r: (Vec<char>, Vec<char>))
    ensures
        r.0@ == (if find_char(p@, '<') is Some {
            address_name(p@)
        } else {
            Seq::<char>::empty()
        }),
        r.1@ == address_email(p@),
{
    proof {
        lemma_find_char_props(p@, '<');
    }
    match find(p, '<') {
        Some(b) => {
            let before = slice_chars(p, 0, b);
            let t = trim_chars(before.as_slice());
            let name = trim_matches(t.as_slice(), '"');
            let after = slice_chars(p, b + 1, p.len());
            assert(after@ == p@.skip(b + 1));
            let e = trim_matches(after.as_slice(), '>');
            let email = trim_chars(e.as_slice());
            (name, email)
        },
        None => {
            let mut email: Vec<char> = Vec::new();
            push_all(&mut email, p);
            (Vec::new(), email)
        },
    }
}

/// The name shown for a recipient in `to:` suggestions.
pub fn recipient_display(p: &[char]) -> (r: Vec<char>)
    ensures
        r@ == address_name(p@),
{
    match find(p, '<') {
        Some(b) => {
            let before = slice_chars(p, 0, b);
            let t = trim_chars(before.as_slice());
            trim_matches(t.as_slice(), '"')
        },
        None => {
            let mut r: Vec<char> = Vec::new();
            push_all(&mut r, p);
            r
        },
    }
}

} // verus!
