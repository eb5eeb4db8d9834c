use vstd::prelude::*;
use crate::entry::{Entry, EntryKind, EntryView};
use crate::text::{
    extension_of, eq_ignore_ascii_case, eq_ignore_ascii_case_spec, extension_spec, lower_of,
    lowercase, seq_contains, str_contains,
};

verus! {

/// The substring rule shared by name and directory matching: `pattern` occurs
/// in `name`, after lower-casing both when the comparison ignores case.
pub open spec fn name_rule(name: Seq<char>, pattern: Seq<char>, case_sensitive: bool) -> bool {
    if case_sensitive {
        seq_contains(name, pattern)
    } else {
        seq_contains(lower_of(name), lower_of(pattern))
    }
}

/// The extension rule: the name has an extension equal to `ext`, exactly or up to ASCII case.
pub open spec fn ext_rule(name: Seq<char>, ext: Seq<char>, case_sensitive: bool) -> bool {
    match extension_spec(name) {
        None => false,
        Some(e) => if case_sensitive {
            e == ext
        } else {
            eq_ignore_ascii_case_spec(e, ext)
        },
    }
}

/// Checks a name against a pattern under the substring rule.
pub fn name_contains(name: &str, pattern: &str, case_sensitive: bool) -> (r: bool)
    ensures
        r == name_rule(name@, pattern@, case_sensitive),
{
    if case_sensitive {
        str_contains(name, pattern)
    } else {
        let n = lowercase(name);
        let p = lowercase(pattern);
        str_contains(n.as_str(), p.as_str())
    }
}

/// Matches entries whose file name contains a pattern.
#[derive(Clone, Debug)]
pub struct NameMatcher {
    pub pattern: String,
    pub case_sensitive: bool,
}

impl NameMatcher {
    pub open spec fn spec_is_match(&self, entry: EntryView) -> bool {
        name_rule(entry.name, self.pattern@, self.case_sensitive)
    }

    pub fn is_match(&self, entry: &Entry) -> (r: bool)
        ensures
            r == self.spec_is_match(entry@),
    {
        name_contains(entry.name.as_str(), self.pattern.as_str(), self.case_sensitive)
    }
}

/// Matches entries whose extension equals a given one.
#[derive(Clone, Debug)]
pub struct ExtMatcher {
    pub ext: String,
    pub case_sensitive: bool,
}

impl ExtMatcher {
    pub open spec fn spec_is_match(&self, entry: EntryView) -> bool {
        ext_rule(entry.name, self.ext@, self.case_sensitive)
    }

    pub fn is_match(&self, entry: &Entry) -> (r: bool)
        ensures
            r == self.spec_is_match(entry@),
    {
        match extension_of(entry.name.as_str()) {
            None => false,
            Some(e) => {
                if self.case_sensitive {
                    e == self.ext
                } else {
                    eq_ignore_ascii_case(e.as_str(), self.ext.as_str())
                }
            },
        }
    }
}

/// Matches every file, for unconditional counting.
#[derive(Clone, Copy, Debug)]
pub struct AllMatcher;

impl AllMatcher {
    pub open spec fn spec_is_match(&self, entry: EntryView) -> bool {
        entry.kind == EntryKind::File
    }

    pub fn is_match(&self, entry: &Entry) -> (r: bool)
        ensures
            r == self.spec_is_match(entry@),
    {
        entry.kind == EntryKind::File
    }
}

/// Matches directories, all of them or those whose name contains a pattern.
#[derive(Clone, Debug)]
pub struct DirMatcher {
    pub pattern: Option<String>,
    pub case_sensitive: bool,
}

impl DirMatcher {
    pub open spec fn spec_is_match(&self, entry: EntryView) -> bool {
        entry.kind == EntryKind::Dir && match self.pattern {
            None => true,
            Some(p) => name_rule(entry.name, p@, self.case_sensitive),
        }
    }

    pub fn is_match(&self, entry: &Entry) -> (r: bool)
        ensures
            r == self.spec_is_match(entry@),
    {
        if entry.kind != EntryKind::Dir {
            return false;
        }
        match &self.pattern {
            None => true,
            Some(p) => name_contains(entry.name.as_str(), p.as_str(), self.case_sensitive),
        }
    }
}

/// The one matching strategy of a scan.
#[derive(Clone, Debug)]
pub enum Matcher {
    Name(NameMatcher),
    Ext(ExtMatcher),
    All(AllMatcher),
    Dir(DirMatcher),
}

impl Matcher {
    pub open spec fn spec_is_match(&self, entry: EntryView) -> bool {
        match self {
            Matcher::Name(m) => m.spec_is_match(entry),
            Matcher::Ext(m) => m.spec_is_match(entry),
            Matcher::All(m) => m.spec_is_match(entry),
            Matcher::Dir(m) => m.spec_is_match(entry),
        }
    }

    /// Whether the entry is a reportable match; no side effects.
    pub fn is_match(&self, entry: &Entry) -> (r: bool)
        ensures
            r == self.spec_is_match(entry@),
    {
        match self {
            Matcher::Name(m) => m.is_match(entry),
            Matcher::Ext(m) => m.is_match(entry),
            Matcher::All(m) => m.is_match(entry),
            Matcher::Dir(m) => m.is_match(entry),
        }
    }
}

} // verus!
