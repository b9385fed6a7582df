use vstd::prelude::*;
use crate::actor::ConnectionActor;
use crate::cache::{removed, AliasCache};
use crate::facade::{new_or_update_alias, settled};
use crate::model::MutationFailure;
use crate::users::AliasForm;

verus! {

/// What `url::Url::parse` makes of a text: the URL in its serialized form,
/// or the message of the parse error.
pub uninterp spec fn url_parse(s: Seq<char>) -> Result<Seq<char>, Seq<char>>;

/// Relies on url::Url::parse, with the `Display` of `Url` and of
/// `ParseError`: the outcome depends on the text alone.
#[verifier::external_body]
fn parse_url(s: &str) -> (r: Result<String, String>)
    ensures
        match r {
            Ok(u) => url_parse(s@) == Ok::<Seq<char>, Seq<char>>(u@),
            Err(e) => url_parse(s@) == Err::<Seq<char>, Seq<char>>(e@),
        },
{
    match url::Url::parse(s) {
        Ok(u) => Ok(u.to_string()),
        Err(e) => Err(e.to_string()),
    }
}

/// The serialized form of `to` as a URL, or why it is not one.
pub fn parse_destination(to: &String) -> (r: Result<String, String>)
    ensures
        match r {
            Ok(u) => url_parse(to@) == Ok::<Seq<char>, Seq<char>>(u@),
            Err(e) => url_parse(to@) == Err::<Seq<char>, Seq<char>>(e@),
        },
{
    parse_url(to.as_str())
}

/// Why a submitted alias was not stored.
#[derive(Debug, Clone, PartialEq, Eq)]
pub enum AliasFormFailure {
    /// The destination is not a valid absolute URL; the parser's message.
    InvalidUrl(String),
    Failed(MutationFailure),
}

/// Stores `key` with the destination as parsed: a parse failure is
/// reported and nothing is written; a parsed URL is stored in its
/// serialized form, which is returned.
pub fn add_parsed_alias(
    cache: &mut AliasCache,
    actor: &mut ConnectionActor,
    key: String,
    parsed: Result<String, String>,
    owner: i32,
) -> (r: Result<String, AliasFormFailure>)
    requires
        settled(*old(cache), *old(actor)),
    ensures
        settled(*final(cache), *final(actor)),
        final(cache).capacity() == old(cache).capacity(),
        final(actor).is_open() == old(actor).is_open(),
        match parsed {
            Err(msg) => r == Err::<String, AliasFormFailure>(AliasFormFailure::InvalidUrl(msg))
                && final(actor).table() == old(actor).table() && final(cache)@ == old(cache)@,
            Ok(u) => if old(actor).is_open() {
                r is Ok && r->Ok_0@ == u@
                    && final(actor).table() == old(actor).table().insert(key@, (u@, owner))
                    && final(cache)@ == removed(old(cache)@, key@)
            } else {
                r == Err::<String, AliasFormFailure>(AliasFormFailure::Failed(MutationFailure::ActorUnavailable))
                    && final(actor).table() == old(actor).table() && final(cache)@ == old(cache)@
            },
        },
{
    match parsed {
        Err(msg) => Err(AliasFormFailure::InvalidUrl(msg)),
        Ok(u) => match new_or_update_alias(cache, actor, key, u.clone(), owner) {
            Ok(()) => Ok(u),
            Err(e) => Err(AliasFormFailure::Failed(e)),
        },
    }
}

/// Stores an alias as a client submitted it: `form.to` must parse as a URL,
/// and its serialized form is what gets stored and returned.
pub fn new_or_update_alias_form(
    cache: &mut AliasCache,
    actor: &mut ConnectionActor,
    form: AliasForm,
    owner: i32,
) -> (r: Result<String, AliasFormFailure>)
    requires
        settled(*old(cache), *old(actor)),
    ensures
        settled(*final(cache), *final(actor)),
        final(cache).capacity() == old(cache).capacity(),
        final(actor).is_open() == old(actor).is_open(),
        match url_parse(form.to@) {
            Err(msg) => (r matches Err(AliasFormFailure::InvalidUrl(m)) && m@ == msg)
                && final(actor).table() == old(actor).table() && final(cache)@ == old(cache)@,
            Ok(u) => if old(actor).is_open() {
                r is Ok && r->Ok_0@ == u
                    && final(actor).table() == old(actor).table().insert(form.from@, (u, owner))
                    && final(cache)@ == removed(old(cache)@, form.from@)
            } else {
                (r matches Err(AliasFormFailure::Failed(MutationFailure::ActorUnavailable)))
                    && final(actor).table() == old(actor).table() && final(cache)@ == old(cache)@
            },
        },
{
    let parsed = parse_destination(&form.to);
    add_parsed_alias(cache, actor, form.from, parsed, owner)
}

} // verus!
