//! Small text helpers.
use vstd::prelude::*;

verus! {

/// `s` with every `from` replaced by `to`.
pub open spec fn replaced(s: Seq<char>, from: char, to: Seq<char>) -> Seq<char>
    decreases s.len(),
{
    if s.len() == 0 {
        Seq::empty()
    } else {
        replaced(s.drop_last(), from, to) + if s.last() == from {
            to
        } else {
            seq![s.last()]
        }
    }
}

/// Whether `needle` occurs in `hay` at some position.
pub open spec fn occurs_in(hay: Seq<char>, needle: Seq<char>) -> bool {
    exists|i: int| 0 <= i && i + needle.len() <= hay.len() && #[trigger] hay.subrange(i, i + needle.len()) == needle
}

/// Result of `str::to_lowercase`.
pub uninterp spec fn lowercase_of(s: Seq<char>) -> Seq<char>;

/// Relies on `str::replace` with a `char` pattern: every occurrence of
/// `from` is replaced by `to`.
#[verifier::external_body]
pub(crate) fn replace_char(s: &str, from: char, to: &str) -> (r: String)
    ensures
        r@ == replaced(s@, from, to@),
{
    s.replace(from, to)
}

/// Relies on `str::contains` with a `&str` pattern: whether `needle`
/// matches a sub-slice of `hay`.
#[verifier::external_body]
pub(crate) fn contains_str(hay: &str, needle: &str) -> (r: bool)
    ensures
        r == occurs_in(hay@, needle@),
{
    hay.contains(needle)
}

/// Relies on `str::to_lowercase`: the result depends on the characters
/// alone.
#[verifier::external_body]
pub(crate) fn lowercase(s: &str) -> (r: String)
    ensures
        r@ == lowercase_of(s@),
{
    s.to_lowercase()
}

/// The layout of a metric source's text, as a parser attribute names it.
#[derive(Clone, Copy, Debug, PartialEq, Eq, Structural)]
pub enum FormatKind {
    Kv,
    Space,
    Table,
}

/// Whether the type's text, spaces removed, mentions the unit type `uom_name`.
pub fn contains_uom_type(type_string: &str, uom_name: &str) -> (r: bool)
    ensures
        r == occurs_in(replaced(type_string@, ' ', Seq::empty()), uom_name@),
{
    let ty = replace_char(type_string, ' ', "");
    proof {
        assert(""@ =~= Seq::<char>::empty()) by {
            reveal_strlit("");
        }
    }
    contains_str(ty.as_str(), uom_name)
}

/// The value of a success; a failure is dropped (the message says what was
/// attempted).
pub fn filter_result<T, E>(result: Result<T, E>, message: &str) -> (r: Option<T>)
    ensures
        r == match result {
            Ok(v) => Some(v),
            Err(_) => None::<T>,
        },
{
    match result {
        Ok(v) => Some(v),
        Err(_) => None,
    }
}

/// The application's name.
pub fn get_app_name() -> (r: &'static str)
    ensures
        r@ == "prism"@,
{
    "prism"
}

/// The application's name in lower case, spaces turned into `-`.
pub fn get_slugified_app_name() -> (r: String)
    ensures
        r@ == replaced(lowercase_of("prism"@), ' ', "-"@),
{
    let lower = lowercase(get_app_name());
    replace_char(lower.as_str(), ' ', "-")
}

/// Where the proc and sys filesystems are read from. Each root can be set
/// once; reading an unset root fixes it to its default.
#[derive(Clone, Debug)]
pub struct RootPaths {
    pub procfs: Option<String>,
    pub sysfs: Option<String>,
}

impl RootPaths {
    /// Neither root set.
    pub fn new() -> (r: RootPaths)
        ensures
            r.procfs is None,
            r.sysfs is None,
    {
        RootPaths { procfs: None, sysfs: None }
    }
}

/// Sets the proc root unless it is already set.
pub fn set_procfs_root(roots: &mut RootPaths, root: String)
    ensures
        final(roots).procfs == if old(roots).procfs is None {
            Some(root)
        } else {
            old(roots).procfs
        },
        final(roots).sysfs == old(roots).sysfs,
{
    if roots.procfs.is_none() {
        roots.procfs = Some(root);
    }
}

/// The proc root, `/proc` unless set before.
pub fn procfs_root(roots: &mut RootPaths) -> (r: String)
    ensures
        old(roots).procfs matches Some(p) ==> (r@ == p@ && final(roots).procfs == old(roots).procfs),
        old(roots).procfs is None ==> r@ == "/proc"@ && (final(roots).procfs matches Some(p) && p@ == r@),
        final(roots).sysfs == old(roots).sysfs,
{
    match &roots.procfs {
        Some(p) => p.clone(),
        None => {
            let d = "/proc".to_owned();
            roots.procfs = Some(d.clone());
            d
        },
    }
}

/// Sets the sys root unless it is already set.
pub fn set_sysfs_root(roots: &mut RootPaths, root: String)
    ensures
        final(roots).sysfs == if old(roots).sysfs is None {
            Some(root)
        } else {
            old(roots).sysfs
        },
        final(roots).procfs == old(roots).procfs,
{
    if roots.sysfs.is_none() {
        roots.sysfs = Some(root);
    }
}

/// The sys root, `/sys` unless set before.
pub fn sysfs_root(roots: &mut RootPaths) -> (r: String)
    ensures
        old(roots).sysfs matches Some(p) ==> (r@ == p@ && final(roots).sysfs == old(roots).sysfs),
        old(roots).sysfs is None ==> r@ == "/sys"@ && (final(roots).sysfs matches Some(p) && p@ == r@),
        final(roots).procfs == old(roots).procfs,
{
    match &roots.sysfs {
        Some(p) => p.clone(),
        None => {
            let d = "/sys".to_owned();
            roots.sysfs = Some(d.clone());
            d
        },
    }
}

} // verus!
