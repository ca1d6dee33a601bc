//! Channel and effect identifiers, and the node names derived from them.
use vstd::prelude::*;
use vstd::string::*;
use crate::text::{range_is, substring};

verus! {

/// The lowercase hexadecimal digit of a value below sixteen.
pub open spec fn hex_digit(d: nat) -> char {
    if d < 10 {
        ((d + 48) as u8) as char
    } else {
        ((d + 87) as u8) as char
    }
}

/// The last `k` hexadecimal digits of `x`, most significant first.
pub open spec fn hex_digits(x: nat, k: nat) -> Seq<char>
    decreases k,
{
    if k == 0 {
        Seq::empty()
    } else {
        hex_digits(x / 16, (k - 1) as nat).push(hex_digit(x % 16))
    }
}

/// The compact text form of an identifier: 32 lowercase hex digits.
pub open spec fn simple_text(id: u128) -> Seq<char> {
    hex_digits(id as nat, 32)
}

/// What `uuid::Uuid::parse_str` makes of a text: the identifier it names,
/// or nothing where the text is no identifier in any of the crate's forms.
pub uninterp spec fn uuid_parse(s: Seq<char>) -> Option<u128>;

/// Formats an identifier with `uuid::Uuid::simple`, which the crate
/// documents as the 32 lowercase hexadecimal digits of its bytes in order.
#[verifier::external_body]
pub(crate) fn simple_uuid(id: u128) -> (r: String)
    ensures
        r@ == simple_text(id),
{
    uuid::Uuid::from_u128(id).simple().to_string()
}

/// The usual text form of an identifier: the 32 digits of the compact form
/// in groups of 8, 4, 4, 4 and 12 joined by hyphens.
pub open spec fn hyphenated_text(id: u128) -> Seq<char> {
    let d = simple_text(id);
    d.subrange(0, 8) + "-"@ + d.subrange(8, 12) + "-"@ + d.subrange(12, 16) + "-"@ + d.subrange(16, 20)
        + "-"@ + d.subrange(20, 32)
}

/// Formats an identifier with `uuid::Uuid::hyphenated`, which the crate
/// documents as the hyphen-grouped form.
#[verifier::external_body]
pub(crate) fn hyphenated_uuid(id: u128) -> (r: String)
    ensures
        r@ == hyphenated_text(id),
{
    uuid::Uuid::from_u128(id).hyphenated().to_string()
}

/// Parses an identifier with `uuid::Uuid::parse_str`; the result is named,
/// not described, save that the crate reads back its own simple and
/// hyphenated forms as the identifier they were written from.
#[verifier::external_body]
pub(crate) fn parse_uuid(s: &str) -> (r: Option<u128>)
    ensures
        r == uuid_parse(s@),
        forall|x: u128| #[trigger] hyphenated_text(x) == s@ ==> r == Some(x),
        forall|x: u128| #[trigger] simple_text(x) == s@ ==> r == Some(x),
{
    match uuid::Uuid::parse_str(s) {
        Ok(u) => Some(u.as_u128()),
        Err(_) => None,
    }
}

/// The usual text form of an identifier, as channel and effect ids are
/// written in messages to the host.
pub fn id_text(id: u128) -> (r: String)
    ensures
        r@ == hyphenated_text(id),
{
    hyphenated_uuid(id)
}

/// The identifier a text names, in any of the forms `uuid` reads, or `None`;
/// the text `id_text` writes reads back as its identifier.
pub fn id_from_text(s: &str) -> (r: Option<u128>)
    ensures
        r == uuid_parse(s@),
        forall|x: u128| #[trigger] hyphenated_text(x) == s@ ==> r == Some(x),
{
    parse_uuid(s)
}

/// The prefix of every effects engine client's name.
pub open spec fn fx_prefix() -> Seq<char> {
    "tideline-fx-"@
}

/// The audio engine's client name for a channel: `tideline-fx-` and the
/// channel's compact identifier.
pub fn channel_jack_client(channel: u128) -> (r: String)
    ensures
        r@ == fx_prefix() + simple_text(channel),
{
    let digits = simple_uuid(channel);
    let mut r = "tideline-fx-".to_owned();
    r.append(digits.as_str());
    r
}

/// The short name the engine uses for a channel's client.
pub fn slug_for_channel(channel: u128) -> (r: String)
    ensures
        r@ == simple_text(channel),
{
    simple_uuid(channel)
}

/// The text after `tideline-fx-` in an engine client's name, or the whole
/// name where it does not start so.
pub open spec fn target_suffix(node: Seq<char>) -> Seq<char> {
    if node.len() >= fx_prefix().len() && node.subrange(0, fx_prefix().len() as int) == fx_prefix() {
        node.subrange(fx_prefix().len() as int, node.len() as int)
    } else {
        node
    }
}

/// The stable suffix of an engine client's name, used to name the
/// audition source that feeds it.
pub fn uuid_from_target(fx_node: &str) -> (r: String)
    ensures
        r@ == target_suffix(fx_node@),
{
    proof {
        reveal_strlit("tideline-fx-");
    }
    let n = fx_node.unicode_len();
    if n >= 12 && range_is(fx_node, 0, 12, "tideline-fx-") {
        substring(fx_node, 12, n)
    } else {
        let r = substring(fx_node, 0, n);
        proof {
            assert(fx_node@.subrange(0, n as int) =~= fx_node@);
        }
        r
    }
}

/// A random identifier as RFC 9562 lays out version 4: the four version
/// bits read 4 and the two variant bits read binary 10.
pub open spec fn is_random_v4(id: u128) -> bool {
    id & 0xF000_C000_0000_0000_0000u128 == 0x4000_8000_0000_0000_0000u128
}

/// A fresh random identifier from `uuid::Uuid::new_v4`, whose source masks
/// random bits and sets the version-4 and RFC variant bits; nothing else is
/// promised of the value.
#[verifier::external_body]
pub(crate) fn fresh_id() -> (r: u128)
    ensures
        is_random_v4(r),
{
    uuid::Uuid::new_v4().as_u128()
}

/// Naming a channel's client and taking the prefix off again gives back
/// the channel's compact identifier.
pub proof fn law_client_name_suffix(channel: u128)
    ensures
        target_suffix(fx_prefix() + simple_text(channel)) == simple_text(channel),
{
    reveal_strlit("tideline-fx-");
    let s = fx_prefix() + simple_text(channel);
    assert(s.subrange(0, 12) =~= fx_prefix());
    assert(s.subrange(12, s.len() as int) =~= simple_text(channel));
}

} // verus!
