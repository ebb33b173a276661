//! Staging the fetched PDF engine next to the program that loads it.

use vstd::prelude::*;

use crate::fetch::cache_directories;
use crate::fetch::cache_path;
use crate::fetch::law_cache_has_a_place_for_each;
use crate::fetch::texts;
use crate::fetch::FetchPlan;
use crate::manifest::pinned_version;
use crate::manifest::version_in;
use crate::manifest::Manifest;
use crate::target::key_of;
use crate::target::library_name;
use crate::target::library_of;
use crate::target::target_key;
use crate::text::optional_text;
use crate::text::same_text;

verus! {

/// Why the engine cannot be staged.
#[derive(Debug)]
pub enum StageError {
    /// The manifest's text names no version.
    NoVersion,
    /// There is no engine for this platform.
    UnsupportedTarget,
    /// The engine has not been fetched completely.
    NotFetched { key: &'static str },
    /// The build's output directory lies in no profile directory.
    NoProfileDirectory,
}

impl StageError {
    /// What the message for the user reads.
    pub open spec fn message_text(self) -> Seq<char> {
        match self {
            StageError::NoVersion => "couldn't parse version from pdfium.toml"@,
            StageError::UnsupportedTarget => "unsupported target"@,
            StageError::NotFetched { key } => "pdfium not found for "@ + key@
                + ". Run `cargo xtask fetch-pdfium` first."@,
            StageError::NoProfileDirectory => "couldn't locate target/<profile> from OUT_DIR"@,
        }
    }

    /// The message for the user.
    pub fn message(&self) -> (text: String)
        ensures
            text@ == self.message_text(),
    {
        match self {
            StageError::NoVersion => "couldn't parse version from pdfium.toml".to_owned(),
            StageError::UnsupportedTarget => "unsupported target".to_owned(),
            StageError::NotFetched { key } => {
                let mut text: String = "pdfium not found for ".to_owned();
                text.append(key);
                text.append(". Run `cargo xtask fetch-pdfium` first.");
                text
            },
            StageError::NoProfileDirectory => {
                "couldn't locate target/<profile> from OUT_DIR".to_owned()
            },
        }
    }
}

/// Which engine is staged, and where it was kept.
#[derive(Debug)]
pub struct StagePlan {
    pub key: &'static str,
    /// The directories, from the workspace's root down, in which the engine is kept.
    pub directories: Vec<String>,
    /// The file name of the engine's library, which lies in the directory `lib` there.
    pub library: &'static str,
}

/// The name of a directory that holds the outcome of a build profile.
pub open spec fn is_profile_name(name: Option<Seq<char>>) -> bool {
    name == Some("debug"@) || name == Some("release"@)
}

/// Whether `index` is the first place at which the name of a profile stands.
pub open spec fn is_profile_index(names: Seq<Option<String>>, index: int) -> bool {
    &&& 0 <= index < names.len()
    &&& is_profile_name(optional_text(names[index]))
    &&& forall|i: int| 0 <= i < index ==> !is_profile_name(#[trigger] optional_text(names[i]))
}

/// Finds the profile directory among a directory and those that it lies in, innermost first,
/// given by their file names.
pub fn profile_directory(names: &Vec<Option<String>>) -> (index: Option<usize>)
    ensures
        match index {
            Some(i) => is_profile_index(names@, i as int),
            None => forall|i: int|
                0 <= i < names@.len() ==> !is_profile_name(#[trigger] optional_text(names@[i])),
        },
{
    let mut i: usize = 0;
    while i < names.len()
        invariant
            i <= names@.len(),
            forall|j: int| 0 <= j < i ==> !is_profile_name(#[trigger] optional_text(names@[j])),
        decreases names@.len() - i,
    {
        if let Some(name) = &names[i] {
            if same_text(name.as_str(), "debug") || same_text(name.as_str(), "release") {
                return Some(i);
            }
        }
        i += 1;
    }
    None
}

impl StagePlan {
    /// Whether this is the plan for a version on the platform `key` of an operating system.
    pub open spec fn is_for(self, version: Seq<char>, key: Seq<char>, os: Seq<char>) -> bool {
        &&& self.key@ == key
        &&& texts(self.directories@) == cache_path(version, key)
        &&& self.library@ == library_of(os)
    }

    /// The plan for the engine that the manifest's text pins.
    pub fn new(manifest: &str, os: &str, arch: &str) -> (result: Result<StagePlan, StageError>)
        ensures
            match version_in(manifest@) {
                None => result matches Err(StageError::NoVersion),
                Some(version) => match key_of(os@, arch@) {
                    None => result matches Err(StageError::UnsupportedTarget),
                    Some(key) => result matches Ok(plan) && plan.is_for(version, key, os@),
                },
            },
    {
        let version: String = match pinned_version(manifest) {
            Some(version) => version,
            None => return Err(StageError::NoVersion),
        };
        match target_key(os, arch) {
            Ok(key) => Ok(
                StagePlan {
                    key,
                    directories: cache_directories(version.as_str(), key),
                    library: library_name(os),
                },
            ),
            Err(_) => Err(StageError::UnsupportedTarget),
        }
    }

    /// Where the library goes, given whether the engine was found complete, and the file names of
    /// the build's output directory and of those that it lies in, innermost first.
    pub fn destination(&self, complete: bool, names: &Vec<Option<String>>) -> (result: Result<
        usize,
        StageError,
    >)
        ensures
            match result {
                Ok(index) => complete && is_profile_index(names@, index as int),
                Err(StageError::NotFetched { key }) => !complete && key == self.key,
                Err(error) => {
                    &&& error is NoProfileDirectory
                    &&& complete
                    &&& forall|i: int|
                        0 <= i < names@.len() ==> !is_profile_name(
                            #[trigger] optional_text(names@[i]),
                        )
                },
            },
    {
        if !complete {
            return Err(StageError::NotFetched { key: self.key });
        }
        match profile_directory(names) {
            Some(index) => Ok(index),
            None => Err(StageError::NoProfileDirectory),
        }
    }
}

/// The engine is staged from where it was fetched to, if both go by the same version.
pub proof fn law_staging_looks_where_fetching_puts(
    manifest: Manifest,
    text: Seq<char>,
    os: Seq<char>,
    key: Seq<char>,
    fetched: FetchPlan,
    staged: StagePlan,
)
    requires
        version_in(text) == Some(manifest.version@),
        fetched.is_for(manifest, key),
        staged.is_for(version_in(text)->0, key, os),
    ensures
        texts(staged.directories@) == texts(fetched.destination@),
        staged.key@ == fetched.key@,
{
}

/// A directory is that of a profile if it is named `debug` or `release`, and not otherwise.
pub proof fn law_profiles_are_debug_and_release(name: Seq<char>)
    ensures
        is_profile_name(Some(name)) <==> name == "debug"@ || name == "release"@,
        !is_profile_name(None),
{
}

/// The directory that is found is the innermost of a profile: it is one, nothing inside it is,
/// and there is no second such place. Where any directory is one, there is such a place.
pub proof fn law_profile_directory_is_the_innermost(
    names: Seq<Option<String>>,
    index: int,
    other: int,
)
    ensures
        is_profile_index(names, index) ==> 0 <= index < names.len() && (names[index] matches Some(
            name,
        ) && (name@ == "debug"@ || name@ == "release"@)),
        is_profile_index(names, index) && 0 <= other < index ==> !(names[other] matches Some(name)
            && (name@ == "debug"@ || name@ == "release"@)),
        is_profile_index(names, index) && is_profile_index(names, other) ==> index == other,
        0 <= other < names.len() && (names[other] matches Some(name) && (name@ == "debug"@
            || name@ == "release"@)) ==> exists|i: int| i <= other && #[trigger]
            is_profile_index(names, i),
{
    if is_profile_index(names, index) && 0 <= other < index {
        assert(!is_profile_name(optional_text(names[other])));
    }
    if is_profile_index(names, index) && is_profile_index(names, other) && index < other {
        assert(!is_profile_name(optional_text(names[index])));
    }
    if 0 <= other < names.len() && is_profile_name(optional_text(names[other])) {
        lemma_there_is_a_first(names, other);
    }
}

proof fn lemma_there_is_a_first(names: Seq<Option<String>>, at: int)
    requires
        0 <= at < names.len(),
        is_profile_name(optional_text(names[at])),
    ensures
        exists|i: int| i <= at && #[trigger] is_profile_index(names, i),
    decreases at,
{
    if forall|i: int| 0 <= i < at ==> !is_profile_name(#[trigger] optional_text(names[i])) {
        assert(is_profile_index(names, at));
    } else {
        let i = choose|i: int|
            0 <= i < at && is_profile_name(#[trigger] optional_text(names[i]));
        lemma_there_is_a_first(names, i);
    }
}

/// A plan stages the library of the system, from where the version has its place on the platform.
pub proof fn law_stage_plan_is_for_its_platform(
    plan: StagePlan,
    version: Seq<char>,
    key: Seq<char>,
    os: Seq<char>,
)
    requires
        plan.is_for(version, key, os),
    ensures
        plan.key@ == key,
        plan.directories@.len() == 3,
        plan.directories@[0]@ == ".pdfium-cache"@,
        plan.directories@[1]@ == version,
        plan.directories@[2]@ == key,
        plan.library@ == library_of(os),
{
    law_cache_has_a_place_for_each(version, key, version, key);
    assert(texts(plan.directories@).len() == plan.directories@.len());
    assert(texts(plan.directories@)[0] == plan.directories@[0]@);
    assert(texts(plan.directories@)[1] == plan.directories@[1]@);
    assert(texts(plan.directories@)[2] == plan.directories@[2]@);
}

/// The message on a missing engine names the platform between its fixed words.
pub proof fn law_message_names_the_missing_engine(key: &'static str)
    ensures
        ({
            let text = (StageError::NotFetched { key }).message_text();
            let words = "pdfium not found for "@;
            &&& text.take(words.len() as int) == words
            &&& text.skip(words.len() as int) == key@
                + ". Run `cargo xtask fetch-pdfium` first."@
        }),
{
    let text = (StageError::NotFetched { key }).message_text();
    let words = "pdfium not found for "@;
    assert(text.take(words.len() as int) =~= words);
    assert(text.skip(words.len() as int) =~= key@ + ". Run `cargo xtask fetch-pdfium` first."@);
}

/// The messages on the other failures say which file, platform or directory is at fault.
pub proof fn law_messages_say_what_is_at_fault()
    ensures
        StageError::NoVersion.message_text() == "couldn't parse version from "@ + "pdfium.toml"@,
        StageError::UnsupportedTarget.message_text() == "unsupported"@ + " target"@,
        StageError::NoProfileDirectory.message_text() == "couldn't locate target/<profile>"@
            + " from OUT_DIR"@,
{
    reveal_strlit("couldn't parse version from pdfium.toml");
    reveal_strlit("couldn't parse version from ");
    reveal_strlit("pdfium.toml");
    reveal_strlit("unsupported target");
    reveal_strlit("unsupported");
    reveal_strlit(" target");
    reveal_strlit("couldn't locate target/<profile> from OUT_DIR");
    reveal_strlit("couldn't locate target/<profile>");
    reveal_strlit(" from OUT_DIR");
    assert(StageError::NoVersion.message_text() =~= "couldn't parse version from "@
        + "pdfium.toml"@);
    assert(StageError::UnsupportedTarget.message_text() =~= "unsupported"@ + " target"@);
    assert(StageError::NoProfileDirectory.message_text() =~= "couldn't locate target/<profile>"@
        + " from OUT_DIR"@);
}

} // verus!
