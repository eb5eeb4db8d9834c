use vstd::prelude::*;

verus! {

/// One flag of the configuration file: its short and long names, what it is
/// for, the platform it applies to, and what it does.
pub struct FlagDef {
    pub short: String,
    pub long: String,
    pub description: String,
    pub os: String,
    pub action: Option<String>,
    pub target: Option<String>,
    pub value: Option<String>,
}

/// The platform the program runs on, as far as flag availability goes.
#[derive(Clone, Copy, Debug, PartialEq, Eq, Structural)]
pub enum Platform {
    Windows,
    Linux,
    MacOs,
    Other,
}

/// The name that a flag's `os` field gives the platform.
pub open spec fn platform_name(p: Platform) -> Option<Seq<char>> {
    match p {
        Platform::Windows => Some("windows"@),
        Platform::Linux => Some("linux"@),
        Platform::MacOs => Some("macos"@),
        Platform::Other => None,
    }
}

/// A flag applies everywhere when its `os` is "all", and else on the platform it names.
pub open spec fn available_on(os: Seq<char>, p: Platform) -> bool {
    os == "all"@ || platform_name(p) == Some(os)
}

/// Whether the flag applies on this platform.
pub fn is_flag_available(flag: &FlagDef, platform: Platform) -> (r: bool)
    ensures
        r == available_on(flag.os@, platform),
{
    let all = String::from_str("all");
    if flag.os == all {
        return true;
    }
    let name = match platform {
        Platform::Windows => String::from_str("windows"),
        Platform::Linux => String::from_str("linux"),
        Platform::MacOs => String::from_str("macos"),
        Platform::Other => {
            return false;
        },
    };
    flag.os == name
}

/// The keys of a list of keyed items.
pub open spec fn keys_of<T>(v: Seq<(String, T)>) -> Seq<Seq<char>> {
    v.map_values(|kv: (String, T)| kv.0@)
}

/// No key occurs twice.
pub open spec fn keys_unique<T>(v: Seq<(String, T)>) -> bool {
    forall|i: int, j: int|
        0 <= i < v.len() && 0 <= j < v.len() && i != j ==> (#[trigger] v[i]).0@ != (
        #[trigger] v[j]).0@
}

/// The index of `key` in a key-unique list, if it is there.
pub open spec fn index_of_key<T>(v: Seq<(String, T)>, key: Seq<char>) -> Option<int> {
    if exists|i: int| 0 <= i < v.len() && (#[trigger] v[i]).0@ == key {
        Some(choose|i: int| 0 <= i < v.len() && (#[trigger] v[i]).0@ == key)
    } else {
        None
    }
}

/// The configuration: flag definitions, custom flags and aliases, each keyed
/// by a unique name, in the order they were added.
pub struct LdxConfig {
    pub flags: Vec<(String, FlagDef)>,
    pub custom: Vec<(String, FlagDef)>,
    pub aliases: Vec<(String, String)>,
}

/// Where `key` stands in a keyed list, if it does.
fn find_key<T>(v: &Vec<(String, T)>, key: &String) -> (r: Option<usize>)
    ensures
        match r {
            Some(i) => i < v@.len() && v@[i as int].0@ == key@,
            None => forall|i: int| 0 <= i < v@.len() ==> (#[trigger] v@[i]).0@ != key@,
        },
{
    let mut i: usize = 0;
    while i < v.len()
        invariant
            i <= v@.len(),
            forall|k: int| 0 <= k < i ==> (#[trigger] v@[k]).0@ != key@,
        decreases v@.len() - i,
    {
        if v[i].0 == *key {
            return Some(i);
        }
        i = i + 1;
    }
    None
}

/// Sets `key` to `value`: replaces the value of an existing key in place, or
/// adds the pair at the end.
fn put<T>(v: &mut Vec<(String, T)>, key: String, value: T)
    requires
        keys_unique(old(v)@),
    ensures
        keys_unique(final(v)@),
        match index_of_key(old(v)@, key@) {
            Some(i) => final(v)@ == old(v)@.update(i, (old(v)@[i].0, value)),
            None => final(v)@ == old(v)@.push((key, value)),
        },
{
    match find_key(v, &key) {
        Some(i) => {
            let ghost before = v@;
            let k = v[i].0.clone();
            v.set(i, (k, value));
            proof {
                assert(index_of_key(before, key@) == Some(i as int));
                assert(keys_of(v@) =~= keys_of(before));
                assert forall|a: int, b: int|
                    0 <= a < v@.len() && 0 <= b < v@.len() && a != b implies (#[trigger] v@[a]).0@
                    != (#[trigger] v@[b]).0@ by {
                    assert(v@[a].0@ == before[a].0@);
                    assert(v@[b].0@ == before[b].0@);
                }
            }
        },
        None => {
            v.push((key, value));
        },
    }
}

/// The value stored under `key`, if any.
fn get<'a, T>(v: &'a Vec<(String, T)>, key: &String) -> (r: Option<&'a T>)
    requires
        keys_unique(v@),
    ensures
        match index_of_key(v@, key@) {
            Some(i) => r == Some(&v@[i].1),
            None => r is None,
        },
{
    match find_key(v, key) {
        Some(i) => {
            assert(index_of_key(v@, key@) == Some(i as int));
            Some(&v[i].1)
        },
        None => None,
    }
}

impl LdxConfig {
    pub open spec fn wf(&self) -> bool {
        &&& keys_unique(self.flags@)
        &&& keys_unique(self.custom@)
        &&& keys_unique(self.aliases@)
    }

    /// What `name` is an alias for, if it is one.
    pub open spec fn alias_spec(&self, name: Seq<char>) -> Option<Seq<char>> {
        match index_of_key(self.aliases@, name) {
            Some(i) => Some(self.aliases@[i].1@),
            None => None,
        }
    }

    /// A configuration with no flags, custom flags or aliases.
    pub fn new() -> (r: LdxConfig)
        ensures
            r.wf(),
            r.flags@.len() == 0,
            r.custom@.len() == 0,
            r.aliases@.len() == 0,
    {
        LdxConfig { flags: Vec::new(), custom: Vec::new(), aliases: Vec::new() }
    }

    /// Defines (or redefines) the flag under `key`.
    pub fn insert_flag(&mut self, key: String, def: FlagDef)
        requires
            old(self).wf(),
        ensures
            final(self).wf(),
            final(self).custom@ == old(self).custom@,
            final(self).aliases@ == old(self).aliases@,
            match index_of_key(old(self).flags@, key@) {
                Some(i) => final(self).flags@ == old(self).flags@.update(
                    i,
                    (old(self).flags@[i].0, def),
                ),
                None => final(self).flags@ == old(self).flags@.push((key, def)),
            },
    {
        put(&mut self.flags, key, def);
    }

    /// Defines (or redefines) the custom flag under `key`.
    pub fn insert_custom(&mut self, key: String, def: FlagDef)
        requires
            old(self).wf(),
        ensures
            final(self).wf(),
            final(self).flags@ == old(self).flags@,
            final(self).aliases@ == old(self).aliases@,
            match index_of_key(old(self).custom@, key@) {
                Some(i) => final(self).custom@ == old(self).custom@.update(
                    i,
                    (old(self).custom@[i].0, def),
                ),
                None => final(self).custom@ == old(self).custom@.push((key, def)),
            },
    {
        put(&mut self.custom, key, def);
    }

    /// Makes `name` an alias for `expansion`, replacing an earlier one.
    pub fn insert_alias(&mut self, name: String, expansion: String)
        requires
            old(self).wf(),
        ensures
            final(self).wf(),
            final(self).flags@ == old(self).flags@,
            final(self).custom@ == old(self).custom@,
            final(self).alias_spec(name@) == Some(expansion@),
            forall|other: Seq<char>|
                other != name@ ==> #[trigger] final(self).alias_spec(other) == old(
                    self,
                ).alias_spec(other),
    {
        let ghost key = name@;
        put(&mut self.aliases, name, expansion);
        proof {
            let a = self.aliases@;
            let o = old(self).aliases@;
            match index_of_key(o, key) {
                Some(i) => {
                    assert(a[i].0@ == key);
                },
                None => {
                    assert(a[o.len() as int].0@ == key);
                },
            }
            let j = index_of_key(a, key)->0;
            assert(a[j].0@ == key);
            assert forall|other: Seq<char>|
                other != key implies #[trigger] self.alias_spec(other) == old(self).alias_spec(
                    other,
                ) by {
                if index_of_key(o, other) is Some {
                    let k = index_of_key(o, other)->0;
                    assert(a[k].0@ == other);
                }
                if index_of_key(a, other) is Some {
                    let k = index_of_key(a, other)->0;
                    assert(k < o.len());
                    assert(o[k].0@ == other);
                }
            }
        }
    }

    /// What `name` is an alias for, if it is one.
    pub fn alias(&self, name: &String) -> (r: Option<&String>)
        requires
            self.wf(),
        ensures
            match self.alias_spec(name@) {
                Some(e) => r is Some && r->0@ == e,
                None => r is None,
            },
    {
        get(&self.aliases, name)
    }
}

} // verus!
