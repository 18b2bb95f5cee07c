//! The calls that the library makes into other crates. Verus does not read
//! the bodies of these functions: it takes their contracts on trust.

use vstd::prelude::*;
use vstd::utf8::encode_utf8;

verus! {

/// A name found in a text, with the bytes of the text that it spans.
#[derive(Debug, Eq, PartialEq)]
pub struct Mention {
    /// The name.
    pub name: String,
    /// The byte of the text at which the name starts.
    pub start: usize,
    /// The byte of the text before which the name ends.
    pub end: usize,
}

/// What a mention holds, as plain values.
pub struct MentionView {
    /// The name.
    pub name: Seq<char>,
    /// The byte of the text at which the name starts.
    pub start: nat,
    /// The byte of the text before which the name ends.
    pub end: nat,
}

impl View for Mention {
    type V = MentionView;

    open spec fn view(&self) -> MentionView {
        MentionView { name: self.name@, start: self.start as nat, end: self.end as nat }
    }
}

/// The view of a mention that may be missing.
pub open spec fn mention_view(found: Option<Mention>) -> Option<MentionView> {
    match found {
        Some(mention) => Some(mention@),
        None => None,
    }
}

/// `mention` lies in `text`: it spans a stretch of the bytes of the text,
/// and its name is what stands there.
pub open spec fn lies_in(mention: MentionView, text: Seq<char>) -> bool {
    &&& mention.start <= mention.end <= encode_utf8(text).len()
    &&& encode_utf8(mention.name) == encode_utf8(text).subrange(
        mention.start as int,
        mention.end as int,
    )
}

/// What the regular expression `pattern` captures under the name `name` in
/// `text`: for each match, in the order in which the matches are found, what
/// the group called `name` holds and the bytes of `text` that it spans, or
/// `None` where the match has no such group. Nothing where `pattern` is no
/// regular expression.
pub uninterp spec fn captured_names(pattern: Seq<char>, text: Seq<char>) -> Seq<Option<MentionView>>;

/// Calls `regex::Regex::new` on `pattern` and `regex::Regex::captures_iter`
/// on `text`, and of each match takes the group called `name` with
/// `regex::Captures::name`, and of the group `regex::Match::as_str`, `start`
/// and `end`.
///
/// The contract claims that the answer is a function of the two arguments,
/// and of each group what `regex::Match` documents: that its start is no
/// greater than its end, and that its text is the text between the two.
/// Nothing is claimed of which names are found.
#[verifier::external_body]
pub(crate) fn find_names(pattern: &str, text: &str) -> (r: Vec<Option<Mention>>)
    ensures
        r@.map_values(|found: Option<Mention>| mention_view(found)) == captured_names(
            pattern@,
            text@,
        ),
        forall|i: int|
            0 <= i < r@.len() ==> ((#[trigger] r@[i]) matches Some(mention) ==> lies_in(
                mention@,
                text@,
            )),
{
    match regex::Regex::new(pattern) {
        Ok(regex) => regex
            .captures_iter(text)
            .map(|captures| captures.name("name").map(|found| Mention {
                name: found.as_str().to_owned(),
                start: found.start(),
                end: found.end(),
            }))
            .collect(),
        Err(_) => Vec::new(),
    }
}

/// The version that the identifier with the number `id` is marked with: the
/// upper half of its seventh byte, the first byte being the highest of the
/// number.
pub open spec fn version_of(id: u128) -> int {
    (id as int / 0x1000_0000_0000_0000_0000) % 0x10
}

/// The two highest bits of the ninth byte of the identifier with the number
/// `id`, the first byte being the highest of the number. They name the
/// layout of the identifier.
pub open spec fn layout_of(id: u128) -> int {
    (id as int / 0x4000_0000_0000_0000) % 4
}

/// `id` is the number of an identifier that was drawn at random: it is
/// marked with the version four, and with the layout that RFC 4122 describes,
/// which is written as the bits one and zero. Its other 122 bits are free.
pub open spec fn is_random_identifier(id: u128) -> bool {
    version_of(id) == 4 && layout_of(id) == 2
}

/// Calls `uuid::Uuid::new_v4` and takes the number of the identifier made
/// with `uuid::Uuid::as_u128`, which puts the first byte highest.
///
/// The contract claims the marks that `new_v4` sets on every identifier it
/// makes: the version `Random` in the upper half of the seventh byte and the
/// variant `RFC4122` in the two highest bits of the ninth. The rest of the
/// identifier is random, and nothing is claimed of it. The call stops the
/// program where the system can give no random bytes.
#[verifier::external_body]
pub(crate) fn fresh_id() -> (r: u128)
    ensures
        is_random_identifier(r),
{
    uuid::Uuid::new_v4().as_u128()
}

} // verus!
