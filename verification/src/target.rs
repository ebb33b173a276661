//! The platforms for which the PDF engine is published.

use vstd::prelude::*;

use crate::text::same_text;

verus! {

/// A platform for which there is no published engine.
#[derive(Debug)]
pub struct UnsupportedTarget {
    pub os: String,
    pub arch: String,
}

impl UnsupportedTarget {
    /// The message for the user.
    pub fn message(&self) -> (text: String)
        ensures
            text@ == "unsupported target: "@ + self.os@ + "-"@ + self.arch@,
    {
        let mut text: String = "unsupported target: ".to_owned();
        text.append(self.os.as_str());
        text.append("-");
        text.append(self.arch.as_str());
        text
    }
}

/// The name under which the engine is published for an operating system and an architecture.
pub open spec fn key_of(os: Seq<char>, arch: Seq<char>) -> Option<Seq<char>> {
    if os == "macos"@ && arch == "aarch64"@ {
        Some("mac-arm64"@)
    } else if os == "macos"@ && arch == "x86_64"@ {
        Some("mac-x64"@)
    } else if os == "windows"@ && arch == "x86_64"@ {
        Some("win-x64"@)
    } else if os == "linux"@ && arch == "x86_64"@ {
        Some("linux-x64"@)
    } else {
        None
    }
}

/// The name under which the engine is published for this operating system and architecture.
pub fn target_key(os: &str, arch: &str) -> (result: Result<&'static str, UnsupportedTarget>)
    ensures
        match result {
            Ok(key) => key_of(os@, arch@) == Some(key@),
            Err(error) => key_of(os@, arch@) is None && error.os@ == os@ && error.arch@ == arch@,
        },
{
    if same_text(os, "macos") && same_text(arch, "aarch64") {
        Ok("mac-arm64")
    } else if same_text(os, "macos") && same_text(arch, "x86_64") {
        Ok("mac-x64")
    } else if same_text(os, "windows") && same_text(arch, "x86_64") {
        Ok("win-x64")
    } else if same_text(os, "linux") && same_text(arch, "x86_64") {
        Ok("linux-x64")
    } else {
        Err(UnsupportedTarget { os: os.to_owned(), arch: arch.to_owned() })
    }
}

/// The file name of the engine's dynamic library on an operating system.
pub open spec fn library_of(os: Seq<char>) -> Seq<char> {
    if os == "windows"@ {
        "pdfium.dll"@
    } else if os == "macos"@ {
        "libpdfium.dylib"@
    } else {
        "libpdfium.so"@
    }
}

/// The file name of the engine's dynamic library on this operating system.
pub fn library_name(os: &str) -> (name: &'static str)
    ensures
        name@ == library_of(os@),
{
    if same_text(os, "windows") {
        "pdfium.dll"
    } else if same_text(os, "macos") {
        "libpdfium.dylib"
    } else {
        "libpdfium.so"
    }
}

/// No two platforms share a published engine.
pub proof fn law_keys_tell_targets_apart(
    os_a: Seq<char>,
    arch_a: Seq<char>,
    os_b: Seq<char>,
    arch_b: Seq<char>,
)
    requires
        key_of(os_a, arch_a) is Some,
        key_of(os_a, arch_a) == key_of(os_b, arch_b),
    ensures
        os_a == os_b,
        arch_a == arch_b,
{
    reveal_strlit("mac-arm64");
    reveal_strlit("mac-x64");
    reveal_strlit("win-x64");
    reveal_strlit("linux-x64");
    assert("mac-arm64"@.len() == 9 && "mac-x64"@.len() == 7);
    assert("win-x64"@.len() == 7 && "linux-x64"@.len() == 9);
    assert("mac-arm64"@[0] == 'm' && "linux-x64"@[0] == 'l');
    assert("mac-x64"@[0] == 'm' && "win-x64"@[0] == 'w');
}

/// There is an engine for 64-bit Intel on three systems, for 64-bit ARM on one, and for nothing
/// else; its name says both, the system first.
pub proof fn law_key_names_system_and_machine(os: Seq<char>, arch: Seq<char>)
    ensures
        key_of(os, arch) is Some <==> (arch == "x86_64"@ && (os == "macos"@ || os == "windows"@
            || os == "linux"@)) || (arch == "aarch64"@ && os == "macos"@),
        key_of(os, arch) matches Some(key) ==> {
            &&& os == "macos"@ ==> "mac-"@.is_prefix_of(key)
            &&& os == "windows"@ ==> "win-"@.is_prefix_of(key)
            &&& os == "linux"@ ==> "linux-"@.is_prefix_of(key)
            &&& arch == "x86_64"@ ==> "-x64"@.is_suffix_of(key)
            &&& arch == "aarch64"@ ==> "-arm64"@.is_suffix_of(key)
        },
{
    reveal_strlit("mac-arm64");
    reveal_strlit("mac-x64");
    reveal_strlit("win-x64");
    reveal_strlit("linux-x64");
    reveal_strlit("mac-");
    reveal_strlit("win-");
    reveal_strlit("linux-");
    reveal_strlit("-x64");
    reveal_strlit("-arm64");
    reveal_strlit("macos");
    reveal_strlit("windows");
    reveal_strlit("linux");
    reveal_strlit("x86_64");
    reveal_strlit("aarch64");
    assert("x86_64"@.len() == 6 && "aarch64"@.len() == 7);
    assert("macos"@[0] == 'm' && "windows"@[0] == 'w' && "linux"@[0] == 'l');
    assert("mac-"@ =~= "mac-arm64"@.subrange(0, 4) && "mac-"@ =~= "mac-x64"@.subrange(0, 4));
    assert("win-"@ =~= "win-x64"@.subrange(0, 4) && "linux-"@ =~= "linux-x64"@.subrange(0, 6));
    assert("-x64"@ =~= "mac-x64"@.subrange(3, 7) && "-x64"@ =~= "win-x64"@.subrange(3, 7));
    assert("-x64"@ =~= "linux-x64"@.subrange(5, 9));
    assert("-arm64"@ =~= "mac-arm64"@.subrange(3, 9));
}

/// Every library is named for the engine, with the ending that its system loads, and with `lib`
/// in front on every system but one.
pub proof fn law_library_is_named_for_its_system(os: Seq<char>)
    ensures
        os == "windows"@ ==> library_of(os) == "pdfium"@ + ".dll"@,
        os == "macos"@ ==> library_of(os) == "lib"@ + "pdfium"@ + ".dylib"@,
        os != "windows"@ && os != "macos"@ ==> library_of(os) == "lib"@ + "pdfium"@ + ".so"@,
{
    reveal_strlit("pdfium");
    reveal_strlit("lib");
    reveal_strlit(".dll");
    reveal_strlit(".dylib");
    reveal_strlit(".so");
    reveal_strlit("pdfium.dll");
    reveal_strlit("libpdfium.dylib");
    reveal_strlit("libpdfium.so");
    reveal_strlit("windows");
    reveal_strlit("macos");
    assert("windows"@.len() == 7 && "macos"@.len() == 5);
    assert("pdfium.dll"@ =~= "pdfium"@ + ".dll"@);
    assert("libpdfium.dylib"@ =~= "lib"@ + "pdfium"@ + ".dylib"@);
    assert("libpdfium.so"@ =~= "lib"@ + "pdfium"@ + ".so"@);
}

} // verus!
