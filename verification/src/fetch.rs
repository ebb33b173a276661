//! Fetching the PDF engine: what to ask for, where to keep it, and when to trust it.
//!
//! A fetch is a state machine. Each state says what has to be done next; whoever does it reports
//! back with an event. Nothing is unpacked, and nothing is marked as complete, unless the archive
//! has the pinned checksum.

use vstd::prelude::*;

use crate::digest::checksum;
use crate::digest::hex;
use crate::digest::sha256;
use crate::manifest::Manifest;
use crate::target::key_of;
use crate::target::target_key;
use crate::target::UnsupportedTarget;
use crate::text::chars_of;
use crate::text::same_text;

verus! {

/// The text with `%2F` in the place of every slash.
pub open spec fn escape_slashes(text: Seq<char>) -> Seq<char>
    decreases text.len(),
{
    if text.len() == 0 {
        Seq::empty()
    } else if text.last() == '/' {
        escape_slashes(text.drop_last()) + "%2F"@
    } else {
        escape_slashes(text.drop_last()).push(text.last())
    }
}

/// Where the archive of a version is published for the platform `key`.
pub open spec fn url_of(version: Seq<char>, key: Seq<char>) -> Seq<char> {
    "https://github.com/bblanchon/pdfium-binaries/releases/download/"@ + escape_slashes(version)
        + "/pdfium-"@ + key + ".tgz"@
}

/// The directories, from the workspace's root down, in which a version is kept for the platform
/// `key`.
pub open spec fn cache_path(version: Seq<char>, key: Seq<char>) -> Seq<Seq<char>> {
    seq![".pdfium-cache"@, version, key]
}

/// What the strings read.
pub open spec fn texts(strings: Seq<String>) -> Seq<Seq<char>> {
    Seq::new(strings.len(), |i: int| strings[i]@)
}

/// The text with `%2F` in the place of every slash.
pub fn with_escaped_slashes(text: &str) -> (escaped: String)
    ensures
        escaped@ == escape_slashes(text@),
{
    let chars: Vec<char> = chars_of(text);
    let mut escaped: String = String::new();
    let mut i: usize = 0;
    while i < chars.len()
        invariant
            chars@ == text@,
            i <= chars@.len(),
            escaped@ == escape_slashes(text@.take(i as int)),
        decreases chars@.len() - i,
    {
        let c: char = chars[i];
        assert(text@.take(i + 1).drop_last() =~= text@.take(i as int));
        if c == '/' {
            escaped.append("%2F");
        } else {
            escaped.push(c);
        }
        i += 1;
    }
    assert(text@.take(text@.len() as int) =~= text@);
    escaped
}

/// Where the archive of a version is published for the platform `key`.
pub fn download_url(version: &str, key: &str) -> (url: String)
    ensures
        url@ == url_of(version@, key@),
{
    let mut url: String =
        "https://github.com/bblanchon/pdfium-binaries/releases/download/".to_owned();
    let escaped: String = with_escaped_slashes(version);
    url.append(escaped.as_str());
    url.append("/pdfium-");
    url.append(key);
    url.append(".tgz");
    url
}

/// The directories, from the workspace's root down, in which a version is kept for the platform
/// `key`.
pub fn cache_directories(version: &str, key: &str) -> (directories: Vec<String>)
    ensures
        texts(directories@) == cache_path(version@, key@),
{
    let mut directories: Vec<String> = Vec::new();
    directories.push(".pdfium-cache".to_owned());
    directories.push(version.to_owned());
    directories.push(key.to_owned());
    assert(texts(directories@) =~= cache_path(version@, key@));
    directories
}

/// The file whose presence says that the engine was unpacked completely.
pub fn complete_marker() -> (name: &'static str)
    ensures
        name@ == ".complete"@,
{
    ".complete"
}

/// Why a fetch cannot go on.
#[derive(Debug)]
pub enum FetchError {
    /// There is no engine for this platform.
    UnsupportedTarget(UnsupportedTarget),
    /// The manifest pins no checksum for this platform.
    NoChecksum { key: String },
    /// What was downloaded is not what the manifest pins.
    ChecksumMismatch { key: String, expected: String, actual: String },
}

impl FetchError {
    /// What the message for the user reads.
    pub open spec fn message_text(self) -> Seq<char> {
        match self {
            FetchError::UnsupportedTarget(target) => "unsupported target: "@ + target.os@ + "-"@
                + target.arch@,
            FetchError::NoChecksum { key } => "no checksum pinned for "@ + key@
                + " in pdfium.toml"@,
            FetchError::ChecksumMismatch { key, expected, actual } => "checksum mismatch for "@
                + key@ + "\n  expected: "@ + expected@ + "\n  actual:   "@ + actual@,
        }
    }

    /// The message for the user.
    pub fn message(&self) -> (text: String)
        ensures
            text@ == self.message_text(),
    {
        match self {
            FetchError::UnsupportedTarget(target) => target.message(),
            FetchError::NoChecksum { key } => {
                let mut text: String = "no checksum pinned for ".to_owned();
                text.append(key.as_str());
                text.append(" in pdfium.toml");
                text
            },
            FetchError::ChecksumMismatch { key, expected, actual } => {
                let mut text: String = "checksum mismatch for ".to_owned();
                text.append(key.as_str());
                text.append("\n  expected: ");
                text.append(expected.as_str());
                text.append("\n  actual:   ");
                text.append(actual.as_str());
                text
            },
        }
    }
}

/// What is fetched, from where, and where it goes.
#[derive(Debug)]
pub struct FetchPlan {
    pub version: String,
    pub key: &'static str,
    /// The checksum that the archive must have.
    pub expected: String,
    /// The directories, from the workspace's root down, in which the engine is kept.
    pub destination: Vec<String>,
    pub url: String,
}

impl FetchPlan {
    /// Whether this is the plan that the manifest asks for on the platform `key`.
    pub open spec fn is_for(self, manifest: Manifest, key: Seq<char>) -> bool {
        &&& self.version@ == manifest.version@
        &&& self.key@ == key
        &&& manifest.checksums@.contains_key(key)
        &&& self.expected@ == manifest.checksums@[key]@
        &&& texts(self.destination@) == cache_path(manifest.version@, key)
        &&& self.url@ == url_of(manifest.version@, key)
    }

    /// Whether the archive is the one that was pinned.
    pub open spec fn accepts(self, archive: Seq<u8>) -> bool {
        hex(sha256(archive)) == self.expected@
    }
}

/// A fetch, by what has to be done next.
#[derive(Debug)]
pub enum Fetch {
    /// Look for the marker in the destination.
    Probe(FetchPlan),
    /// Create the destination.
    CreateDestination(FetchPlan),
    /// Download the archive.
    Download(FetchPlan),
    /// Unpack the archive, whose checksum is right, into the destination.
    Unpack(FetchPlan, Vec<u8>),
    /// Write the marker into the destination.
    Mark(FetchPlan),
    /// Nothing: the engine was there before.
    Cached(FetchPlan),
    /// Nothing: the engine has been fetched.
    Ready(FetchPlan),
}

/// What has been done about a fetch.
#[derive(Debug)]
pub enum FetchEvent {
    /// The marker was looked for, and was there or not.
    MarkerChecked(bool),
    DestinationCreated,
    /// The archive was downloaded.
    Downloaded(Vec<u8>),
    Unpacked,
    MarkerWritten,
}

impl Fetch {
    /// The state after an event, or none where the fetch has failed. An event that answers some
    /// other state changes nothing.
    pub open spec fn next(self, event: FetchEvent) -> Option<Fetch> {
        match (self, event) {
            (Fetch::Probe(plan), FetchEvent::MarkerChecked(found)) => Some(
                if found {
                    Fetch::Cached(plan)
                } else {
                    Fetch::CreateDestination(plan)
                },
            ),
            (Fetch::CreateDestination(plan), FetchEvent::DestinationCreated) => Some(
                Fetch::Download(plan),
            ),
            (Fetch::Download(plan), FetchEvent::Downloaded(archive)) => if plan.accepts(archive@) {
                Some(Fetch::Unpack(plan, archive))
            } else {
                None
            },
            (Fetch::Unpack(plan, _), FetchEvent::Unpacked) => Some(Fetch::Mark(plan)),
            (Fetch::Mark(plan), FetchEvent::MarkerWritten) => Some(Fetch::Ready(plan)),
            _ => Some(self),
        }
    }

    /// The state after a row of events, or none where the fetch has failed on the way.
    pub open spec fn after(self, events: Seq<FetchEvent>) -> Option<Fetch>
        decreases events.len(),
    {
        if events.len() == 0 {
            Some(self)
        } else {
            match self.after(events.drop_last()) {
                Some(fetch) => fetch.next(events.last()),
                None => None,
            }
        }
    }

    /// A fetch of the engine that the manifest pins for this operating system and architecture.
    pub fn start(manifest: &Manifest, os: &str, arch: &str) -> (result: Result<Fetch, FetchError>)
        ensures
            match key_of(os@, arch@) {
                None => result matches Err(FetchError::UnsupportedTarget(target)) && target.os@
                    == os@ && target.arch@ == arch@,
                Some(key) => if manifest.checksums@.contains_key(key) {
                    result matches Ok(Fetch::Probe(plan)) && plan.is_for(*manifest, key)
                } else {
                    result matches Err(FetchError::NoChecksum { key: missing }) && missing@ == key
                },
            },
    {
        let key: &'static str = match target_key(os, arch) {
            Ok(key) => key,
            Err(target) => return Err(FetchError::UnsupportedTarget(target)),
        };
        match manifest.checksums.get(key) {
            Some(expected) => Ok(
                Fetch::Probe(
                    FetchPlan {
                        version: manifest.version.clone(),
                        key,
                        expected: expected.clone(),
                        destination: cache_directories(manifest.version.as_str(), key),
                        url: download_url(manifest.version.as_str(), key),
                    },
                ),
            ),
            None => Err(FetchError::NoChecksum { key: key.to_owned() }),
        }
    }

    /// Goes on after an event.
    pub fn step(self, event: FetchEvent) -> (result: Result<Fetch, FetchError>)
        ensures
            match result {
                Ok(fetch) => self.next(event) == Some(fetch),
                Err(error) => {
                    &&& self.next(event) is None
                    &&& self matches Fetch::Download(plan)
                    &&& event matches FetchEvent::Downloaded(archive)
                    &&& error matches FetchError::ChecksumMismatch { key, expected, actual }
                    &&& key@ == plan.key@
                    &&& expected@ == plan.expected@
                    &&& actual@ == hex(sha256(archive@))
                },
            },
    {
        match (self, event) {
            (Fetch::Probe(plan), FetchEvent::MarkerChecked(found)) => if found {
                Ok(Fetch::Cached(plan))
            } else {
                Ok(Fetch::CreateDestination(plan))
            },
            (Fetch::CreateDestination(plan), FetchEvent::DestinationCreated) => Ok(
                Fetch::Download(plan),
            ),
            (Fetch::Download(plan), FetchEvent::Downloaded(archive)) => {
                let actual: String = checksum(&archive);
                judge_archive(plan, archive, actual)
            },
            (Fetch::Unpack(plan, _), FetchEvent::Unpacked) => Ok(Fetch::Mark(plan)),
            (Fetch::Mark(plan), FetchEvent::MarkerWritten) => Ok(Fetch::Ready(plan)),
            (fetch, _) => Ok(fetch),
        }
    }
}

/// Goes on with an archive whose checksum is `actual`: it is unpacked if that is the checksum
/// that the plan expects, and refused otherwise.
pub fn judge_archive(plan: FetchPlan, archive: Vec<u8>, actual: String) -> (result: Result<
    Fetch,
    FetchError,
>)
    ensures
        if actual@ == plan.expected@ {
            result == Ok::<Fetch, FetchError>(Fetch::Unpack(plan, archive))
        } else {
            &&& result matches Err(FetchError::ChecksumMismatch { key, expected, actual: found })
            &&& key@ == plan.key@
            &&& expected@ == plan.expected@
            &&& found@ == actual@
        },
{
    if same_text(actual.as_str(), plan.expected.as_str()) {
        Ok(Fetch::Unpack(plan, archive))
    } else {
        Err(
            FetchError::ChecksumMismatch {
                key: plan.key.to_owned(),
                expected: plan.expected,
                actual,
            },
        )
    }
}

/// What an escaped text holds: no slash.
pub proof fn law_escaped_text_has_no_slash(text: Seq<char>)
    ensures
        !escape_slashes(text).contains('/'),
    decreases text.len(),
{
    reveal_strlit("%2F");
    if text.len() > 0 {
        law_escaped_text_has_no_slash(text.drop_last());
        let before = escape_slashes(text.drop_last());
        let after = escape_slashes(text);
        assert forall|i: int| 0 <= i < after.len() implies after[i] != '/' by {
            if i < before.len() {
                assert(after[i] == before[i]);
                assert(before.contains(before[i]));
            }
        }
    }
}

/// Versions without a percent sign keep their archives apart: different versions are fetched
/// from different places.
pub proof fn law_urls_tell_versions_apart(a: Seq<char>, b: Seq<char>, key: Seq<char>)
    requires
        !a.contains('%'),
        !b.contains('%'),
        url_of(a, key) == url_of(b, key),
    ensures
        a == b,
{
    let host = "https://github.com/bblanchon/pdfium-binaries/releases/download/"@;
    let tail = "/pdfium-"@ + key + ".tgz"@;
    let ea = escape_slashes(a);
    let eb = escape_slashes(b);
    assert(url_of(a, key) =~= host + ea + tail);
    assert(url_of(b, key) =~= host + eb + tail);
    assert(url_of(a, key).len() == host.len() + ea.len() + tail.len());
    assert(url_of(b, key).len() == host.len() + eb.len() + tail.len());
    assert(ea =~= url_of(a, key).subrange(host.len() as int, (host.len() + ea.len()) as int));
    assert(eb =~= url_of(b, key).subrange(host.len() as int, (host.len() + eb.len()) as int));
    lemma_escape_is_injective(a, b);
}

/// A text without a percent sign has none at its end, and none before that.
proof fn lemma_without_percent(text: Seq<char>)
    requires
        text.len() > 0,
        !text.contains('%'),
    ensures
        text.last() != '%',
        !text.drop_last().contains('%'),
{
    assert(text.contains(text.last()));
    assert forall|i: int| 0 <= i < text.len() - 1 implies text.drop_last()[i] != '%' by {
        assert(text.contains(text[i]));
    }
}

proof fn lemma_escape_is_injective(a: Seq<char>, b: Seq<char>)
    requires
        !a.contains('%'),
        !b.contains('%'),
        escape_slashes(a) == escape_slashes(b),
    ensures
        a == b,
    decreases a.len(),
{
    reveal_strlit("%2F");
    let ea = escape_slashes(a);
    let eb = escape_slashes(b);
    if a.len() > 0 && b.len() > 0 {
        let a0 = a.drop_last();
        let b0 = b.drop_last();
        lemma_without_percent(a);
        lemma_without_percent(b);
        lemma_escape_end(a);
        lemma_escape_end(b);
        assert(escape_slashes(a0) == escape_slashes(b0) && a.last() == b.last());
        lemma_escape_is_injective(a0, b0);
        assert(a =~= a0.push(a.last()));
        assert(b =~= b0.push(b.last()));
    } else {
        lemma_escape_is_not_shorter(a);
        lemma_escape_is_not_shorter(b);
        assert(a =~= b);
    }
}

/// The last character of a text can be read off its escaped form.
proof fn lemma_escape_end(text: Seq<char>)
    requires
        text.len() > 0,
        !text.contains('%'),
    ensures
        escape_slashes(text).len() > 0,
        text.last() == '/' <==> escape_slashes(text).len() >= 3 && escape_slashes(
            text,
        )[escape_slashes(text).len() - 3] == '%',
        text.last() == '/' ==> escape_slashes(text.drop_last()) == escape_slashes(text).take(
            escape_slashes(text).len() - 3,
        ),
        text.last() != '/' ==> escape_slashes(text.drop_last()) == escape_slashes(text).drop_last()
            && text.last() == escape_slashes(text).last(),
{
    reveal_strlit("%2F");
    let before = escape_slashes(text.drop_last());
    let e = escape_slashes(text);
    if text.last() == '/' {
        assert(e.take(e.len() - 3) =~= before);
    } else {
        assert(e.drop_last() =~= before);
        lemma_without_percent(text);
        if e.len() >= 3 {
            lemma_percent_is_followed(text.drop_last());
            assert(e[e.len() - 3] == before[before.len() - 2]);
        }
    }
}

/// In an escaped text a percent sign is never one of the last two characters.
proof fn lemma_percent_is_followed(text: Seq<char>)
    requires
        !text.contains('%'),
    ensures
        ({
            let e = escape_slashes(text);
            forall|i: int| 0 <= i < e.len() && e[i] == '%' ==> i + 2 < e.len()
        }),
    decreases text.len(),
{
    reveal_strlit("%2F");
    if text.len() > 0 {
        let rest = text.drop_last();
        lemma_without_percent(text);
        lemma_percent_is_followed(rest);
        let before = escape_slashes(rest);
        let e = escape_slashes(text);
        assert forall|i: int| 0 <= i < e.len() && e[i] == '%' implies i + 2 < e.len() by {
            if i < before.len() {
                assert(e[i] == before[i]);
            }
        }
    }
}

proof fn lemma_escape_is_not_shorter(text: Seq<char>)
    ensures
        escape_slashes(text).len() >= text.len(),
    decreases text.len(),
{
    reveal_strlit("%2F");
    if text.len() > 0 {
        lemma_escape_is_not_shorter(text.drop_last());
    }
}

/// Whether the events hold a download at `i` that the plan accepts.
pub open spec fn is_accepted_download(plan: FetchPlan, events: Seq<FetchEvent>, i: int) -> bool {
    0 <= i < events.len() && (events[i] matches FetchEvent::Downloaded(archive) && plan.accepts(
        archive@,
    ))
}

/// What brought a fetch into its state: the events that its state rests on are among `events`.
pub open spec fn is_earned(fetch: Fetch, plan: FetchPlan, events: Seq<FetchEvent>) -> bool {
    match fetch {
        Fetch::Probe(p) => p == plan,
        Fetch::Cached(p) => p == plan && events.contains(FetchEvent::MarkerChecked(true)),
        Fetch::CreateDestination(p) => p == plan && events.contains(
            FetchEvent::MarkerChecked(false),
        ),
        Fetch::Download(p) => p == plan && events.contains(FetchEvent::MarkerChecked(false)),
        Fetch::Unpack(p, archive) => {
            &&& p == plan
            &&& plan.accepts(archive@)
            &&& events.contains(FetchEvent::MarkerChecked(false))
            &&& exists|i: int| #[trigger]
                is_accepted_download(plan, events, i) && events[i] == FetchEvent::Downloaded(
                    archive,
                )
        },
        Fetch::Mark(p) => {
            &&& p == plan
            &&& events.contains(FetchEvent::MarkerChecked(false))
            &&& exists|i: int, j: int|
                #![trigger is_accepted_download(plan, events, i), events[j]]
                is_accepted_download(plan, events, i) && i < j < events.len()
                    && events[j] is Unpacked
        },
        Fetch::Ready(p) => {
            &&& p == plan
            &&& events.contains(FetchEvent::MarkerChecked(false))
            &&& exists|i: int, j: int, k: int|
                #![trigger is_accepted_download(plan, events, i), events[j], events[k]]
                is_accepted_download(plan, events, i) && i < j < k < events.len()
                    && events[j] is Unpacked && events[k] is MarkerWritten
        },
    }
}

/// The engine is unpacked only after an archive with the pinned checksum was downloaded, the
/// marker is written only after that archive was unpacked, and a fetch ends with the engine
/// ready only after the marker was written; and all that only where no marker was found before.
pub proof fn law_nothing_unverified_is_kept(
    plan: FetchPlan,
    events: Seq<FetchEvent>,
    fetch: Fetch,
)
    requires
        Fetch::Probe(plan).after(events) == Some(fetch),
    ensures
        is_earned(fetch, plan, events),
    decreases events.len(),
{
    if events.len() > 0 {
        let earlier = events.drop_last();
        let n = events.len() - 1;
        let before = Fetch::Probe(plan).after(earlier)->0;
        law_nothing_unverified_is_kept(plan, earlier, before);
        assert forall|e: FetchEvent| earlier.contains(e) implies events.contains(e) by {
            let i = choose|i: int| 0 <= i < earlier.len() && earlier[i] == e;
            assert(events[i] == e);
        }
        assert(events[n] == events.last());
        assert(events.contains(events[n]));
        assert forall|i: int| #[trigger] is_accepted_download(plan, earlier, i) implies
            is_accepted_download(plan, events, i) by {}
        match (before, events.last()) {
            (Fetch::Download(p), FetchEvent::Downloaded(archive)) => {
                assert(is_accepted_download(plan, events, n));
            },
            (Fetch::Unpack(p, archive), FetchEvent::Unpacked) => {
                let i = choose|i: int| #[trigger]
                    is_accepted_download(plan, earlier, i) && earlier[i]
                        == FetchEvent::Downloaded(archive);
                assert(is_accepted_download(plan, events, i) && events[n] is Unpacked);
            },
            (Fetch::Unpack(p, archive), _) => {
                let i = choose|i: int| #[trigger]
                    is_accepted_download(plan, earlier, i) && earlier[i]
                        == FetchEvent::Downloaded(archive);
                assert(is_accepted_download(plan, events, i));
            },
            (Fetch::Mark(p), _) => {
                let (i, j) = choose|i: int, j: int|
                    #![trigger is_accepted_download(plan, earlier, i), earlier[j]]
                    is_accepted_download(plan, earlier, i) && i < j < earlier.len()
                        && earlier[j] is Unpacked;
                assert(is_accepted_download(plan, events, i) && events[j] is Unpacked);
            },
            (Fetch::Ready(p), _) => {
                let (i, j, k) = choose|i: int, j: int, k: int|
                    #![trigger is_accepted_download(plan, earlier, i), earlier[j], earlier[k]]
                    is_accepted_download(plan, earlier, i) && i < j < k < earlier.len()
                        && earlier[j] is Unpacked && earlier[k] is MarkerWritten;
                assert(is_accepted_download(plan, events, i) && events[j] is Unpacked
                    && events[k] is MarkerWritten);
            },
            _ => {},
        }
    }
}

/// Where the marker is found, nothing is downloaded or unpacked, whatever happens later.
pub proof fn law_complete_engine_is_kept(plan: FetchPlan, later: Seq<FetchEvent>)
    ensures
        Fetch::Probe(plan).after(seq![FetchEvent::MarkerChecked(true)] + later) == Some(
            Fetch::Cached(plan),
        ),
    decreases later.len(),
{
    let events = seq![FetchEvent::MarkerChecked(true)] + later;
    if later.len() == 0 {
        assert(events.drop_last() =~= Seq::<FetchEvent>::empty());
        assert(events.last() == FetchEvent::MarkerChecked(true));
        reveal_with_fuel(Fetch::after, 2);
    } else {
        law_complete_engine_is_kept(plan, later.drop_last());
        assert(events.drop_last() =~= seq![FetchEvent::MarkerChecked(true)] + later.drop_last());
    }
}

/// An archive with the pinned checksum takes a fetch, each step reported in turn, to its end.
pub proof fn law_pinned_archive_is_installed(plan: FetchPlan, archive: Vec<u8>)
    requires
        plan.accepts(archive@),
    ensures
        Fetch::Probe(plan).after(
            seq![
                FetchEvent::MarkerChecked(false),
                FetchEvent::DestinationCreated,
                FetchEvent::Downloaded(archive),
                FetchEvent::Unpacked,
                FetchEvent::MarkerWritten,
            ],
        ) == Some(Fetch::Ready(plan)),
{
    let e0 = Seq::<FetchEvent>::empty();
    let e1 = e0.push(FetchEvent::MarkerChecked(false));
    let e2 = e1.push(FetchEvent::DestinationCreated);
    let e3 = e2.push(FetchEvent::Downloaded(archive));
    let e4 = e3.push(FetchEvent::Unpacked);
    let e5 = e4.push(FetchEvent::MarkerWritten);
    assert(e1.drop_last() =~= e0 && e2.drop_last() =~= e1 && e3.drop_last() =~= e2);
    assert(e4.drop_last() =~= e3 && e5.drop_last() =~= e4);
    assert(Fetch::Probe(plan).after(e0) == Some(Fetch::Probe(plan)));
    assert(Fetch::Probe(plan).after(e1) == Some(Fetch::CreateDestination(plan)));
    assert(Fetch::Probe(plan).after(e2) == Some(Fetch::Download(plan)));
    assert(Fetch::Probe(plan).after(e3) == Some(Fetch::Unpack(plan, archive)));
    assert(Fetch::Probe(plan).after(e4) == Some(Fetch::Mark(plan)));
    assert(e5 =~= seq![
        FetchEvent::MarkerChecked(false),
        FetchEvent::DestinationCreated,
        FetchEvent::Downloaded(archive),
        FetchEvent::Unpacked,
        FetchEvent::MarkerWritten,
    ]);
}

/// Escaping goes character by character: a slash becomes `%2F`, and anything else stays.
pub proof fn law_escaping_goes_by_characters(a: Seq<char>, b: Seq<char>, c: char)
    ensures
        escape_slashes(a + b) == escape_slashes(a) + escape_slashes(b),
        escape_slashes(Seq::<char>::empty()) == Seq::<char>::empty(),
        c != '/' ==> escape_slashes(seq![c]) == seq![c],
        escape_slashes(seq!['/']) == seq!['%', '2', 'F'],
    decreases b.len(),
{
    reveal_strlit("%2F");
    reveal_with_fuel(escape_slashes, 2);
    assert(seq![c].drop_last() =~= Seq::<char>::empty());
    assert(seq!['/'].drop_last() =~= Seq::<char>::empty());
    assert(escape_slashes(seq!['/']) =~= seq!['%', '2', 'F']);
    if c != '/' {
        assert(escape_slashes(seq![c]) =~= seq![c]);
    }
    if b.len() == 0 {
        assert(a + b =~= a);
        assert(escape_slashes(a) + escape_slashes(b) =~= escape_slashes(a));
    } else {
        law_escaping_goes_by_characters(a, b.drop_last(), c);
        assert((a + b).drop_last() =~= a + b.drop_last());
        assert((a + b).last() == b.last());
        assert(escape_slashes(a + b) =~= escape_slashes(a) + escape_slashes(b));
    }
}

/// For every version and every platform the address ends in `/pdfium-`, the platform's key and
/// `.tgz`; what comes before that is the address of the releases and the escaped version.
pub proof fn law_url_is_the_published_address(version: Seq<char>, key: Seq<char>)
    ensures
        ({
            let url = url_of(version, key);
            let file = "/pdfium-"@ + key + ".tgz"@;
            let release = url.take(url.len() - file.len());
            &&& file.is_suffix_of(url)
            &&& "https://github.com/bblanchon/pdfium-binaries/releases/download/"@.is_prefix_of(
                release,
            )
            &&& release.skip(
                "https://github.com/bblanchon/pdfium-binaries/releases/download/"@.len() as int,
            ) == escape_slashes(version)
        }),
{
    let host = "https://github.com/bblanchon/pdfium-binaries/releases/download/"@;
    let file = "/pdfium-"@ + key + ".tgz"@;
    let url = url_of(version, key);
    assert(url =~= host + escape_slashes(version) + file);
    let release = url.take(url.len() - file.len());
    assert(release =~= host + escape_slashes(version));
    assert(url.subrange(url.len() - file.len(), url.len() as int) =~= file);
    assert(release.subrange(0, host.len() as int) =~= host);
    assert(release.skip(host.len() as int) =~= escape_slashes(version));
}

/// Every version has a place of its own for every platform, below one common directory: first the
/// version, and below that the platform's key.
pub proof fn law_cache_has_a_place_for_each(
    version: Seq<char>,
    key: Seq<char>,
    other_version: Seq<char>,
    other_key: Seq<char>,
)
    ensures
        cache_path(version, key).len() == 3,
        cache_path(version, key)[0] == ".pdfium-cache"@,
        cache_path(version, key)[1] == version,
        cache_path(version, key)[2] == key,
        cache_path(version, key) == cache_path(other_version, other_key) ==> version
            == other_version && key == other_key,
{
    assert(cache_path(version, key)[1] == version && cache_path(version, key)[2] == key);
    assert(cache_path(other_version, other_key)[1] == other_version);
    assert(cache_path(other_version, other_key)[2] == other_key);
}

/// What the strings read, one by one.
pub proof fn law_texts_are_read_one_by_one(strings: Seq<String>, i: int)
    requires
        0 <= i < strings.len(),
    ensures
        texts(strings).len() == strings.len(),
        texts(strings)[i] == strings[i]@,
{
}

/// A plan asks for the pinned version and checksum, keeps the engine where that version has its
/// place on the platform, and fetches it from where that version is published.
pub proof fn law_plan_is_what_the_manifest_pins(plan: FetchPlan, manifest: Manifest, key: Seq<char>)
    requires
        plan.is_for(manifest, key),
    ensures
        plan.version@ == manifest.version@,
        plan.key@ == key,
        manifest.checksums@.contains_key(key),
        plan.expected@ == manifest.checksums@[key]@,
        plan.destination@.len() == 3,
        plan.destination@[0]@ == ".pdfium-cache"@,
        plan.destination@[1]@ == manifest.version@,
        plan.destination@[2]@ == key,
        ("/pdfium-"@ + key + ".tgz"@).is_suffix_of(plan.url@),
        plan.url@.take(plan.url@.len() - ("/pdfium-"@ + key + ".tgz"@).len())
            == "https://github.com/bblanchon/pdfium-binaries/releases/download/"@ + escape_slashes(
            manifest.version@,
        ),
{
    law_url_is_the_published_address(manifest.version@, key);
    law_cache_has_a_place_for_each(manifest.version@, key, manifest.version@, key);
    assert(texts(plan.destination@).len() == plan.destination@.len());
    assert(texts(plan.destination@)[0] == plan.destination@[0]@);
    assert(texts(plan.destination@)[1] == plan.destination@[1]@);
    assert(texts(plan.destination@)[2] == plan.destination@[2]@);
    let host = "https://github.com/bblanchon/pdfium-binaries/releases/download/"@;
    let file = "/pdfium-"@ + key + ".tgz"@;
    assert(plan.url@ =~= host + escape_slashes(manifest.version@) + file);
    assert(plan.url@.take(plan.url@.len() - file.len()) =~= host + escape_slashes(
        manifest.version@,
    ));
}

/// A plan accepts exactly the archives whose SHA-256 digest reads, in hexadecimal, as the pinned
/// checksum does. So it accepts either both or neither of two archives with the same digest.
pub proof fn law_archives_are_judged_by_their_digest(
    plan: FetchPlan,
    archive: Seq<u8>,
    other: Seq<u8>,
)
    ensures
        plan.accepts(archive) <==> plan.expected@ == hex(sha256(archive)),
        plan.accepts(archive) && plan.accepts(other) ==> sha256(archive) == sha256(other),
        plan.accepts(archive) && sha256(archive) == sha256(other) ==> plan.accepts(other),
{
    if plan.accepts(archive) && plan.accepts(other) {
        crate::digest::law_hex_is_injective(sha256(archive), sha256(other));
    }
}

/// The plan that a state carries.
pub open spec fn plan_of(fetch: Fetch) -> FetchPlan {
    match fetch {
        Fetch::Probe(plan) => plan,
        Fetch::CreateDestination(plan) => plan,
        Fetch::Download(plan) => plan,
        Fetch::Unpack(plan, _) => plan,
        Fetch::Mark(plan) => plan,
        Fetch::Cached(plan) => plan,
        Fetch::Ready(plan) => plan,
    }
}

/// No event changes the plan, and only a download can end a fetch early: one that is awaited and
/// whose digest is not the pinned one. Each state goes on to the next at its own event, and at no
/// other.
pub proof fn law_each_state_waits_for_its_event(fetch: Fetch, event: FetchEvent)
    ensures
        fetch.next(event) is None <==> (fetch is Download && (event matches FetchEvent::Downloaded(
            archive,
        ) && hex(sha256(archive@)) != plan_of(fetch).expected@)),
        fetch.next(event) matches Some(next) ==> {
            &&& plan_of(next) == plan_of(fetch)
            &&& next == fetch || {
                ||| fetch is Probe && event == FetchEvent::MarkerChecked(true) && next is Cached
                ||| fetch is Probe && event == FetchEvent::MarkerChecked(false)
                    && next is CreateDestination
                ||| fetch is CreateDestination && event is DestinationCreated && next is Download
                ||| fetch is Download && event is Downloaded && next is Unpack
                ||| fetch is Unpack && event is Unpacked && next is Mark
                ||| fetch is Mark && event is MarkerWritten && next is Ready
            }
        },
        fetch is Probe && event is MarkerChecked ==> fetch.next(event) != Some(fetch),
        fetch is CreateDestination && event is DestinationCreated ==> fetch.next(event) != Some(
            fetch,
        ),
        fetch is Download && event is Downloaded ==> fetch.next(event) != Some(fetch),
        fetch is Unpack && event is Unpacked ==> fetch.next(event) != Some(fetch),
        fetch is Mark && event is MarkerWritten ==> fetch.next(event) != Some(fetch),
        fetch is Download ==> (event matches FetchEvent::Downloaded(archive) ==> (fetch.next(
            event,
        ) matches Some(next) ==> next == Fetch::Unpack(plan_of(fetch), archive))),
{
}

/// The messages name what went wrong: the platform, or the key, or both checksums, in this order,
/// each behind its own words.
pub proof fn law_messages_name_what_went_wrong(error: FetchError)
    ensures
        match error {
            FetchError::UnsupportedTarget(target) => {
                let text = error.message_text();
                let words = "unsupported target: "@;
                let os_end = (words.len() + target.os@.len()) as int;
                &&& text.len() == words.len() + target.os@.len() + "-"@.len() + target.arch@.len()
                &&& text.take(words.len() as int) == words
                &&& text.subrange(words.len() as int, os_end) == target.os@
                &&& text.skip(os_end) == "-"@ + target.arch@
            },
            FetchError::NoChecksum { key } => {
                let text = error.message_text();
                let words = "no checksum pinned for "@;
                &&& text.take(words.len() as int) == words
                &&& text.skip(words.len() as int) == key@ + " in pdfium.toml"@
            },
            FetchError::ChecksumMismatch { key, expected, actual } => {
                let text = error.message_text();
                let words = "checksum mismatch for "@;
                &&& text.take(words.len() as int) == words
                &&& text.skip(words.len() as int) == key@ + "\n  expected: "@ + expected@
                    + "\n  actual:   "@ + actual@
            },
        },
{
    let text = error.message_text();
    match error {
        FetchError::UnsupportedTarget(target) => {
            let words = "unsupported target: "@;
            let os_end = (words.len() + target.os@.len()) as int;
            assert(text.take(words.len() as int) =~= words);
            assert(text.subrange(words.len() as int, os_end) =~= target.os@);
            assert(text.skip(os_end) =~= "-"@ + target.arch@);
        },
        FetchError::NoChecksum { key } => {
            let words = "no checksum pinned for "@;
            assert(text.take(words.len() as int) =~= words);
            assert(text.skip(words.len() as int) =~= key@ + " in pdfium.toml"@);
        },
        FetchError::ChecksumMismatch { key, expected, actual } => {
            let words = "checksum mismatch for "@;
            assert(text.take(words.len() as int) =~= words);
            assert(text.skip(words.len() as int) =~= key@ + "\n  expected: "@ + expected@
                + "\n  actual:   "@ + actual@);
        },
    }
}

} // verus!
