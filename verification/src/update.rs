//! The check for a newer release: how a release is judged against the
//! running version, and what is known while the answer is awaited.

use vstd::prelude::*;
use vstd::string::*;

verus! {

/// The state of the check for a newer release.
#[derive(Debug, Clone, PartialEq, Eq)]
pub struct UpdateState {
    /// Whether the answer is still awaited.
    pub pending: bool,
    pub latest_version: Option<String>,
    pub release_url: Option<String>,
}

/// An `UpdateState` as a mathematical value.
pub struct UpdateStateView {
    pub pending: bool,
    pub latest_version: Option<Seq<char>>,
    pub release_url: Option<Seq<char>>,
}

/// The text of an optional string.
pub open spec fn text_of(s: Option<String>) -> Option<Seq<char>> {
    match s {
        Some(s) => Some(s@),
        None => None,
    }
}

impl View for UpdateState {
    type V = UpdateStateView;

    open spec fn view(&self) -> UpdateStateView {
        UpdateStateView {
            pending: self.pending,
            latest_version: text_of(self.latest_version),
            release_url: text_of(self.release_url),
        }
    }
}

impl UpdateStateView {
    /// The state after a poll. `answer` is what the check delivered since the
    /// last poll, if anything: a newer release as version and address, or
    /// word that there is none. Only a pending state takes an answer.
    pub open spec fn polled(self, answer: Option<Option<(Seq<char>, Seq<char>)>>) -> Self {
        if !self.pending {
            self
        } else {
            match answer {
                None => self,
                Some(None) => UpdateStateView { pending: false, ..self },
                Some(Some((version, url))) => UpdateStateView {
                    pending: false,
                    latest_version: Some(version),
                    release_url: Some(url),
                },
            }
        }
    }
}

/// The texts of an answer.
pub open spec fn answer_view(answer: Option<Option<(String, String)>>) -> Option<
    Option<(Seq<char>, Seq<char>)>,
> {
    match answer {
        None => None,
        Some(None) => Some(None),
        Some(Some((version, url))) => Some(Some((version@, url@))),
    }
}

impl UpdateState {
    /// The state while the first answer is awaited.
    pub fn new() -> (state: UpdateState)
        ensures
            state@ == (UpdateStateView { pending: true, latest_version: None, release_url: None }),
    {
        UpdateState { pending: true, latest_version: None, release_url: None }
    }

    /// Takes in what the check delivered since the last poll.
    pub fn poll(&mut self, answer: Option<Option<(String, String)>>)
        ensures
            final(self)@ == old(self)@.polled(answer_view(answer)),
    {
        if self.pending {
            match answer {
                None => {},
                Some(result) => {
                    self.pending = false;
                    match result {
                        None => {},
                        Some((version, url)) => {
                            self.latest_version = Some(version);
                            self.release_url = Some(url);
                        },
                    }
                },
            }
        }
    }
}

/// The error of the `semver` crate for a text that is no version number.
#[verifier::external_type_specification]
#[verifier::external_body]
pub struct ExVersionError(semver::Error);

/// Whether `semver::Version::parse` takes `text` for a version number.
pub uninterp spec fn is_version(text: Seq<char>) -> bool;

/// Whether the version number that `semver::Version::parse` reads from `a`
/// comes after the one that it reads from `b`, in the order of
/// `semver::Version`.
pub uninterp spec fn version_later(a: Seq<char>, b: Seq<char>) -> bool;

/// The order `>` of `semver::Version` on two texts, each turned into a
/// version number by `semver::Version::parse`: whether `latest` comes after
/// `current`. The call fails with the error of the parse exactly when one of
/// the texts is no version number; parse and order depend on the texts
/// alone.
#[verifier::external_body]
fn order_of_versions(current: &str, latest: &str) -> (r: Result<bool, semver::Error>)
    ensures
        match r {
            Ok(later) => is_version(current@) && is_version(latest@) && later == version_later(
                latest@,
                current@,
            ),
            Err(_) => !(is_version(current@) && is_version(latest@)),
        },
{
    let current = semver::Version::parse(current)?;
    let latest = semver::Version::parse(latest)?;
    Ok(latest > current)
}

/// How two texts compare as version numbers: whether `latest` comes after
/// `current`, or nothing where one of them is no version number.
pub open spec fn later_version(current: Seq<char>, latest: Seq<char>) -> Option<bool> {
    if is_version(current) && is_version(latest) {
        Some(version_later(latest, current))
    } else {
        None
    }
}

/// What is reported of the release with the tag `tag_name` to a program of
/// the version `current_version`: the release, if its tag without every
/// leading `v` is a later version.
pub open spec fn reported(current_version: Seq<char>, tag_name: Seq<char>) -> bool {
    later_version(current_version, without_leading(tag_name, 'v')) == Some(true)
}

/// `text` without the characters `c` that it starts with.
pub open spec fn without_leading(text: Seq<char>, c: char) -> Seq<char>
    decreases text.len(),
{
    if text.len() > 0 && text[0] == c {
        without_leading(text.drop_first(), c)
    } else {
        text
    }
}

/// Strips every leading `v` from the tag of a release.
pub fn trim_tag(tag: &str) -> (trimmed: &str)
    ensures
        trimmed@ == without_leading(tag@, 'v'),
{
    let len = tag.unicode_len();
    let mut at: usize = 0;
    assert(tag@.subrange(0, len as int) =~= tag@);
    while at < len && tag.get_char(at) == 'v'
        invariant
            len == tag@.len(),
            at <= len,
            without_leading(tag@, 'v') == without_leading(tag@.subrange(at as int, len as int), 'v'),
        decreases len - at,
    {
        assert(tag@.subrange(at as int, len as int).drop_first() =~= tag@.subrange(
            at + 1,
            len as int,
        ));
        at += 1;
    }
    tag.substring_char(at, len)
}

/// What is reported of a release: its tag and its address if its version is
/// later than the running one, nothing otherwise. `later` is how the two
/// versions compare, or nothing where one of them is no version number.
pub fn release_to_report(later: Option<bool>, tag_name: String, html_url: String) -> (r: Option<
    (String, String),
>)
    ensures
        r == if later == Some(true) {
            Some((tag_name, html_url))
        } else {
            None
        },
{
    match later {
        Some(true) => Some((tag_name, html_url)),
        _ => None,
    }
}

/// Whether `latest` is a later version than `current`; nothing where one of
/// them is no version number.
pub fn compare_versions(current: &str, latest: &str) -> (later: Option<bool>)
    ensures
        later == later_version(current@, latest@),
{
    match order_of_versions(current, latest) {
        Ok(later) => Some(later),
        Err(_) => None,
    }
}

/// Whether `text` is a version number.
pub fn is_version_number(text: &str) -> (r: bool)
    ensures
        r == is_version(text@),
{
    compare_versions(text, text).is_some()
}

/// Judges the latest release against the running version: the release is
/// reported, with its tag as published, if the tag without its leading `v`
/// is a later version than `current_version`.
pub fn check_update_impl(current_version: &str, tag_name: String, html_url: String) -> (r: Option<
    (String, String),
>)
    ensures
        r == if reported(current_version@, tag_name@) {
            Some((tag_name, html_url))
        } else {
            None
        },
{
    let later = compare_versions(current_version, trim_tag(tag_name.as_str()));
    release_to_report(later, tag_name, html_url)
}

} // verus!
