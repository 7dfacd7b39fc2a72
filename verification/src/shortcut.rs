//! A shortcut: something to launch, with its label, category, optional
//! hotkey and the number of times it was launched.

use vstd::prelude::*;

verus! {

/// One launchable entry.
#[derive(Debug, PartialEq, Eq)]
pub struct Shortcut {
    pub id: String,
    pub name: String,
    pub target: String,
    pub args: String,
    pub category: String,
    pub icon_path: Option<String>,
    pub hotkey: Option<String>,
    pub launch_count: u64,
}

/// A lowercase hexadecimal digit.
pub open spec fn is_lower_hex_digit(c: char) -> bool {
    ('0' <= c && c <= '9') || ('a' <= c && c <= 'f')
}

/// The hyphenated lowercase text form of a random (version 4, RFC 4122
/// variant) UUID: `xxxxxxxx-xxxx-4xxx-Nxxx-xxxxxxxxxxxx` with `N` in `8..=b`.
pub open spec fn is_uuid_v4_text(s: Seq<char>) -> bool {
    &&& s.len() == 36
    &&& forall|i: int|
        0 <= i < 36 ==> if i == 8 || i == 13 || i == 18 || i == 23 {
            #[trigger] s[i] == '-'
        } else {
            is_lower_hex_digit(s[i])
        }
    &&& s[14] == '4'
    &&& (s[19] == '8' || s[19] == '9' || s[19] == 'a' || s[19] == 'b')
}

/// Calls `uuid::Uuid::new_v4` and formats the result with `to_string`.
/// Claimed: the text is a hyphenated lowercase version-4 UUID (the uuid
/// crate masks in the version and variant bits and formats with lowercase
/// hex). Which UUID comes out is random and is not stated.
#[verifier::external_body]
fn random_uuid_text() -> (r: String)
    ensures
        is_uuid_v4_text(r@),
{
    uuid::Uuid::new_v4().to_string()
}

/// The category a shortcut gets when none is chosen.
pub open spec fn default_category() -> Seq<char> {
    seq!['G', 'e', 'n', 'e', 'r', 'a', 'l']
}

/// The default category as a `String`.
pub(crate) fn default_category_text() -> (r: String)
    ensures
        r@ == default_category(),
{
    let mut s = String::new();
    s.append("General");
    proof {
        reveal_strlit("General");
        assert(s@ =~= default_category());
    }
    s
}

/// Copies an optional string.
fn copy_opt_text(o: &Option<String>) -> (r: Option<String>)
    ensures
        r == *o,
{
    match o {
        Some(s) => Some(s.clone()),
        None => None,
    }
}

impl Clone for Shortcut {
    fn clone(&self) -> (r: Self)
        ensures
            r == *self,
    {
        Shortcut {
            id: self.id.clone(),
            name: self.name.clone(),
            target: self.target.clone(),
            args: self.args.clone(),
            category: self.category.clone(),
            icon_path: copy_opt_text(&self.icon_path),
            hotkey: copy_opt_text(&self.hotkey),
            launch_count: self.launch_count,
        }
    }
}

impl Shortcut {
    /// A fresh shortcut with the given id, name and target: no arguments,
    /// the default category, no icon, no hotkey, never launched.
    pub fn with_id(id: String, name: &str, target: &str) -> (r: Shortcut)
        ensures
            r.id == id,
            r.name@ == name@,
            r.target@ == target@,
            r.args@ == Seq::<char>::empty(),
            r.category@ == default_category(),
            r.icon_path.is_none(),
            r.hotkey.is_none(),
            r.launch_count == 0,
    {
        Shortcut {
            id,
            name: name.to_owned(),
            target: target.to_owned(),
            args: String::new(),
            category: default_category_text(),
            icon_path: None,
            hotkey: None,
            launch_count: 0,
        }
    }

    /// A fresh shortcut with a new random id (see `with_id` for the rest).
    pub fn new(name: &str, target: &str) -> (r: Shortcut)
        ensures
            is_uuid_v4_text(r.id@),
            r.name@ == name@,
            r.target@ == target@,
            r.args@ == Seq::<char>::empty(),
            r.category@ == default_category(),
            r.icon_path.is_none(),
            r.hotkey.is_none(),
            r.launch_count == 0,
    {
        Shortcut::with_id(random_uuid_text(), name, target)
    }
}

impl Default for Shortcut {
    fn default() -> (r: Shortcut)
        ensures
            is_uuid_v4_text(r.id@),
            r.name@ == Seq::<char>::empty(),
            r.target@ == Seq::<char>::empty(),
            r.args@ == Seq::<char>::empty(),
            r.category@ == default_category(),
            r.icon_path.is_none(),
            r.hotkey.is_none(),
            r.launch_count == 0,
    {
        proof {
            reveal_strlit("");
        }
        Shortcut::with_id(random_uuid_text(), "", "")
    }
}

} // verus!
