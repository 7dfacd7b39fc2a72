//! Where the shortcut manager keeps its files: the data directory, the
//! shortcut list inside it, and the icon cache with one file per target.

use vstd::prelude::*;
use std::hash::{DefaultHasher, Hasher};
use vstd::string::StringSliceAdditionalSpecFns;
use vstd::std_specs::hash::DefaultHasherAdditionalSpecFns;

verus! {

/// What `Path::join` yields for a base path and a child path on the
/// platform the library is built for (on Unix: the child alone when it is
/// absolute, else the two joined by one `/`).
pub uninterp spec fn joined_path(base: Seq<char>, child: Seq<char>) -> Seq<char>;

/// Calls `std::path::Path::join` on two UTF-8 paths. Claimed: the result
/// is the named join of the two arguments; the conversion back to text is
/// exact because both inputs are UTF-8.
#[verifier::external_body]
fn join_path(base: &str, child: &str) -> (r: String)
    ensures
        r@ == joined_path(base@, child@),
{
    std::path::Path::new(base).join(child).to_string_lossy().into_owned()
}

/// The name of the application's directory inside the system data directory.
pub open spec fn app_dir_name() -> Seq<char> {
    "ShortcutManager"@
}

/// The name of the file that holds the shortcuts.
pub open spec fn data_file_name() -> Seq<char> {
    "shortcuts.json"@
}

/// The name of the icon cache directory.
pub open spec fn icon_cache_name() -> Seq<char> {
    "icon_cache"@
}

/// The data directory: "ShortcutManager" inside the system data directory,
/// or inside the current directory (".") when the system has none.
pub fn get_data_dir(system_data_dir: Option<&str>) -> (r: String)
    ensures
        r@ == joined_path(
            match system_data_dir {
                Some(d) => d@,
                None => "."@,
            },
            app_dir_name(),
        ),
{
    match system_data_dir {
        Some(d) => join_path(d, "ShortcutManager"),
        None => join_path(".", "ShortcutManager"),
    }
}

/// The shortcut file inside the data directory.
pub fn get_data_file(data_dir: &str) -> (r: String)
    ensures
        r@ == joined_path(data_dir@, data_file_name()),
{
    join_path(data_dir, "shortcuts.json")
}

/// The icon cache directory inside the data directory.
pub fn get_icon_cache_dir(data_dir: &str) -> (r: String)
    ensures
        r@ == joined_path(data_dir@, icon_cache_name()),
{
    join_path(data_dir, "icon_cache")
}

/// The lowercase hexadecimal digit for `d` (below 16).
pub open spec fn hex_char(d: nat) -> char {
    if d < 10 {
        ((d + 48) as u32) as char
    } else {
        ((d + 87) as u32) as char
    }
}

/// `n` in lowercase hexadecimal without leading zeros (what `{:x}` prints).
pub open spec fn hex_digits(n: nat) -> Seq<char>
    decreases n,
{
    if n < 16 {
        seq![hex_char(n)]
    } else {
        hex_digits(n / 16).push(hex_char(n % 16))
    }
}

/// The digit text for one hexadecimal digit.
fn hex_digit_text(d: u64) -> (r: &'static str)
    requires
        d < 16,
    ensures
        r@ == seq![hex_char(d as nat)],
{
    proof {
        reveal_strlit("0");
        reveal_strlit("1");
        reveal_strlit("2");
        reveal_strlit("3");
        reveal_strlit("4");
        reveal_strlit("5");
        reveal_strlit("6");
        reveal_strlit("7");
        reveal_strlit("8");
        reveal_strlit("9");
        reveal_strlit("a");
        reveal_strlit("b");
        reveal_strlit("c");
        reveal_strlit("d");
        reveal_strlit("e");
        reveal_strlit("f");
    }
    let r = if d == 0 {
        "0"
    } else if d == 1 {
        "1"
    } else if d == 2 {
        "2"
    } else if d == 3 {
        "3"
    } else if d == 4 {
        "4"
    } else if d == 5 {
        "5"
    } else if d == 6 {
        "6"
    } else if d == 7 {
        "7"
    } else if d == 8 {
        "8"
    } else if d == 9 {
        "9"
    } else if d == 10 {
        "a"
    } else if d == 11 {
        "b"
    } else if d == 12 {
        "c"
    } else if d == 13 {
        "d"
    } else if d == 14 {
        "e"
    } else {
        "f"
    };
    assert(r@ =~= seq![hex_char(d as nat)]);
    r
}

/// Appends `n` in lowercase hexadecimal.
fn append_hex(out: &mut String, n: u64)
    ensures
        final(out)@ == old(out)@ + hex_digits(n as nat),
    decreases n,
{
    if n >= 16 {
        append_hex(out, n / 16);
    }
    out.append(hex_digit_text(n % 16));
    proof {
        if n >= 16 {
            assert(hex_digits(n as nat) == hex_digits((n / 16) as nat).push(hex_char((n % 16) as nat)));
        }
    }
    assert(final(out)@ =~= old(out)@ + hex_digits(n as nat));
}

/// `n` in lowercase hexadecimal.
pub fn hex_text(n: u64) -> (r: String)
    ensures
        r@ == hex_digits(n as nat),
{
    let mut s = String::new();
    append_hex(&mut s, n);
    assert(s@ =~= hex_digits(n as nat));
    s
}

/// The hash that std's default hasher (`DefaultHasher::new`) gives a string:
/// its UTF-8 bytes followed by the byte 0xff, as `str`'s `Hash` feeds them.
pub open spec fn text_hash(bytes: Seq<u8>) -> u64 {
    DefaultHasher::spec_finish(seq![bytes, seq![0xffu8]])
}

/// Hashes a string with std's default hasher, as `str`'s `Hash` does.
pub fn hash_text(s: &str) -> (r: u64)
    ensures
        r == text_hash(s.spec_bytes()),
{
    let mut h = DefaultHasher::new();
    h.write(s.as_bytes());
    let end: [u8; 1] = [0xff];
    h.write(end.as_slice());
    proof {
        assert(end@ =~= seq![0xffu8]);
    }
    let r = h.finish();
    assert(h@ =~= seq![s.spec_bytes(), seq![0xffu8]]);
    r
}

/// The cached icon file for `target`: "<hash in hex>.png" in the icon cache
/// directory of `data_dir`.
pub fn icon_cache_path(data_dir: &str, target: &str) -> (r: String)
    ensures
        r@ == joined_path(
            joined_path(data_dir@, icon_cache_name()),
            hex_digits(text_hash(target.spec_bytes()) as nat) + ".png"@,
        ),
{
    let dir = get_icon_cache_dir(data_dir);
    let mut name = hex_text(hash_text(target));
    name.append(".png");
    join_path(dir.as_str(), name.as_str())
}

} // verus!
