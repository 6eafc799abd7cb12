//! The process environment.

use vstd::prelude::*;

use vstd::string::StrSliceExecFns;
use vstd::utf8::encode_utf8;

use crate::text::{
    chars_of, encode_utf16, eq_ignore_case, same_ignoring_case, string_of, sub_chars, utf16,
};
use crate::util::{first_index, lemma_first_index, lemma_first_index_is, lemma_first_index_none};

verus! {

/// A variable: its name and its value.
pub struct Var {
    pub name: String,
    pub value: String,
}

/// A variable as mathematics.
pub struct VarView {
    pub name: Seq<char>,
    pub value: Seq<char>,
}

impl View for Var {
    type V = VarView;

    open spec fn view(&self) -> VarView {
        VarView { name: self.name@, value: self.value@ }
    }
}

/// The views of a list of variables.
pub open spec fn var_views(s: Seq<Var>) -> Seq<VarView> {
    Seq::new(s.len(), |i: int| s[i]@)
}

/// The condition of being called `name`, whatever the case.
pub open spec fn is_called(name: Seq<char>) -> spec_fn(VarView) -> bool {
    |v: VarView| same_ignoring_case(v.name, name)
}

/// The position of a variable.
pub open spec fn env_find(e: Seq<VarView>, name: Seq<char>) -> Option<int> {
    first_index(e, is_called(name))
}

/// The value of a variable.
pub open spec fn env_value(e: Seq<VarView>, name: Seq<char>) -> Option<Seq<char>> {
    match env_find(e, name) {
        Some(i) => Some(e[i].value),
        None => None,
    }
}

/// The environment after a variable was set, or removed where `value` is `None`.
/// A variable that is there keeps its place and its name.
pub open spec fn env_with(
    e: Seq<VarView>,
    name: Seq<char>,
    value: Option<Seq<char>>,
) -> Seq<VarView> {
    match (env_find(e, name), value) {
        (Some(i), Some(v)) => e.update(i, VarView { name: e[i].name, value: v }),
        (Some(i), None) => e.remove(i),
        (None, Some(v)) => e.push(VarView { name, value: v }),
        (None, None) => e,
    }
}

/// Whether no two variables differ in case alone.
pub open spec fn env_wf(e: Seq<VarView>) -> bool {
    forall|i: int, j: int|
        0 <= i < j < e.len() ==> !same_ignoring_case(
            (#[trigger] e[i]).name,
            (#[trigger] e[j]).name,
        )
}

/// The block of an environment: each variable as `name=value` with a NUL
/// behind, and one more NUL at the end.
pub open spec fn env_units(e: Seq<VarView>) -> Seq<u16> {
    env_units_upto(e) + seq![0u16]
}

/// The variables of a block, without its final NUL.
pub open spec fn env_units_upto(e: Seq<VarView>) -> Seq<u16>
    decreases e.len(),
{
    if e.len() == 0 {
        Seq::empty()
    } else {
        env_units_upto(e.drop_last()) + utf16(e.last().name) + seq![0x3du16] + utf16(
            e.last().value,
        ) + seq![0u16]
    }
}

/// The block of an environment in bytes.
pub open spec fn env_bytes(e: Seq<VarView>) -> Seq<u8> {
    env_bytes_upto(e) + seq![0u8]
}

/// The variables of a byte block, without its final NUL.
pub open spec fn env_bytes_upto(e: Seq<VarView>) -> Seq<u8>
    decreases e.len(),
{
    if e.len() == 0 {
        Seq::empty()
    } else {
        env_bytes_upto(e.drop_last()) + encode_utf8(e.last().name) + seq![0x3du8] + encode_utf8(
            e.last().value,
        ) + seq![0u8]
    }
}

/// The condition of being a percent sign.
pub open spec fn is_percent() -> spec_fn(char) -> bool {
    |c: char| c == '%'
}

/// A text with each `%NAME%` of a known variable replaced by its value. An
/// unknown variable stays as it is written, and so does a percent sign without
/// a partner.
pub open spec fn env_expanded(e: Seq<VarView>, s: Seq<char>) -> Seq<char>
    decreases s.len(),
    via env_expanded_decreases
{
    match first_index(s, is_percent()) {
        None => s,
        Some(open) => {
            let after = s.skip(open + 1);
            match first_index(after, is_percent()) {
                None => s,
                Some(close) => {
                    let name = after.take(close);
                    let value = match env_value(e, name) {
                        Some(v) => v,
                        None => seq!['%'] + name + seq!['%'],
                    };
                    s.take(open) + value + env_expanded(e, after.skip(close + 1))
                },
            }
        },
    }
}

#[via_fn]
proof fn env_expanded_decreases(e: Seq<VarView>, s: Seq<char>) {
    lemma_first_index(s, is_percent());
    match first_index(s, is_percent()) {
        Some(open) => {
            lemma_first_index(s.skip(open + 1), is_percent());
        },
        None => {},
    }
}

/// The position of the first percent sign from `from` on.
fn find_percent(s: &Vec<char>, from: usize) -> (r: Option<usize>)
    requires
        from <= s.len(),
    ensures
        match r {
            Some(i) => from <= i < s.len() && first_index(s@.skip(from as int), is_percent())
                == Some(i - from),
            None => first_index(s@.skip(from as int), is_percent()) is None,
        },
{
    let ghost t = s@.skip(from as int);
    let mut i: usize = from;
    while i < s.len()
        invariant
            from <= i <= s.len(),
            t == s@.skip(from as int),
            forall|j: int| 0 <= j < i - from ==> !is_percent()(#[trigger] t[j]),
        decreases s.len() - i,
    {
        assert(t[i - from] == s@[i as int]);
        if s[i] == '%' {
            proof {
                lemma_first_index_is(t, is_percent(), i - from);
            }
            return Some(i);
        }
        i = i + 1;
    }
    proof {
        lemma_first_index_none(t, is_percent());
    }
    None
}

/// The variables of a process, in the order they were first set.
pub struct Environment {
    pub vars: Vec<Var>,
}

impl View for Environment {
    type V = Seq<VarView>;

    open spec fn view(&self) -> Seq<VarView> {
        var_views(self.vars@)
    }
}

impl Environment {
    /// The position of a variable.
    fn find(&self, name: &str) -> (r: Option<usize>)
        ensures
            match r {
                Some(i) => i < self.vars.len() && env_find(self@, name@) == Some(i as int),
                None => env_find(self@, name@) is None,
            },
    {
        let mut i: usize = 0;
        while i < self.vars.len()
            invariant
                i <= self.vars.len(),
                forall|j: int| 0 <= j < i ==> !is_called(name@)(#[trigger] self@[j]),
            decreases self.vars.len() - i,
        {
            assert(self@[i as int] == self.vars@[i as int]@);
            if eq_ignore_case(self.vars[i].name.as_str(), name) {
                proof {
                    lemma_first_index_is(self@, is_called(name@), i as int);
                }
                return Some(i);
            }
            i = i + 1;
        }
        proof {
            lemma_first_index_none(self@, is_called(name@));
        }
        None
    }

    /// The value of a variable, whatever the case of its name.
    pub fn env_get(&self, name: &str) -> (r: Option<&String>)
        ensures
            match r {
                Some(v) => env_value(self@, name@) == Some(v@),
                None => env_value(self@, name@) is None,
            },
    {
        match self.find(name) {
            Some(i) => Some(&self.vars[i].value),
            None => None,
        }
    }

    /// Set a variable, or remove it where `value` is `None`.
    pub fn env_set(&mut self, name: &str, value: Option<String>)
        ensures
            final(self)@ == env_with(
                old(self)@,
                name@,
                match value {
                    Some(v) => Some(v@),
                    None => None,
                },
            ),
    {
        let ghost e = self@;
        match (self.find(name), value) {
            (Some(i), Some(v)) => {
                let ghost w = v@;
                let mut var = self.vars.remove(i);
                var.value = v;
                self.vars.insert(i, var);
                assert(self@ =~= e.update(i as int, VarView { name: e[i as int].name, value: w }));
            },
            (Some(i), None) => {
                let _gone = self.vars.remove(i);
                assert(self@ =~= e.remove(i as int));
            },
            (None, Some(v)) => {
                let cs = chars_of(name);
                let ghost w = v@;
                self.vars.push(Var { name: string_of(&cs), value: v });
                assert(self@ =~= e.push(VarView { name: name@, value: w }));
            },
            (None, None) => {},
        }
    }

    /// The block of the environment in code units.
    pub fn env_block_utf16(&self) -> (r: Vec<u16>)
        ensures
            r@ == env_units(self@),
    {
        let mut out: Vec<u16> = Vec::new();
        let mut i: usize = 0;
        assert(self@.take(0) =~= Seq::empty());
        while i < self.vars.len()
            invariant
                i <= self.vars.len(),
                out@ == env_units_upto(self@.take(i as int)),
            decreases self.vars.len() - i,
        {
            let ghost before = out@;
            let mut name = encode_utf16(self.vars[i].name.as_str());
            let mut value = encode_utf16(self.vars[i].value.as_str());
            out.append(&mut name);
            out.push(0x3d);
            out.append(&mut value);
            out.push(0);
            proof {
                let t = self@.take(i + 1);
                assert(t.drop_last() =~= self@.take(i as int));
                assert(t.last() == self.vars@[i as int]@);
                assert(out@ =~= env_units_upto(t));
            }
            i = i + 1;
        }
        assert(self@.take(i as int) =~= self@);
        out.push(0);
        assert(out@ =~= env_units(self@));
        out
    }

    /// The block of the environment in bytes.
    pub fn env_block_ansi(&self) -> (r: Vec<u8>)
        ensures
            r@ == env_bytes(self@),
    {
        let mut out: Vec<u8> = Vec::new();
        let mut i: usize = 0;
        assert(self@.take(0) =~= Seq::empty());
        while i < self.vars.len()
            invariant
                i <= self.vars.len(),
                out@ == env_bytes_upto(self@.take(i as int)),
            decreases self.vars.len() - i,
        {
            let mut name = self.vars[i].name.as_str().as_bytes_vec();
            let mut value = self.vars[i].value.as_str().as_bytes_vec();
            out.append(&mut name);
            out.push(0x3d);
            out.append(&mut value);
            out.push(0);
            proof {
                let t = self@.take(i + 1);
                assert(t.drop_last() =~= self@.take(i as int));
                assert(t.last() == self.vars@[i as int]@);
                assert(out@ =~= env_bytes_upto(t));
            }
            i = i + 1;
        }
        assert(self@.take(i as int) =~= self@);
        out.push(0);
        assert(out@ =~= env_bytes(self@));
        out
    }

    /// A text with its `%NAME%` references expanded.
    pub fn expand_env(&self, src: &str) -> (r: String)
        ensures
            r@ == env_expanded(self@, src@),
    {
        let s = chars_of(src);
        let mut out: Vec<char> = Vec::new();
        let mut from: usize = 0;
        assert(s@.skip(0) =~= s@);
        assert(out@ + env_expanded(self@, s@) =~= env_expanded(self@, s@));
        loop
            invariant
                from <= s.len(),
                s@ == src@,
                out@ + env_expanded(self@, s@.skip(from as int)) == env_expanded(self@, src@),
            decreases s.len() - from,
        {
            let ghost rest = s@.skip(from as int);
            match find_percent(&s, from) {
                None => {
                    let mut tail = sub_chars(&s, from, s.len());
                    out.append(&mut tail);
                    assert(s@.subrange(from as int, s.len() as int) =~= rest);
                    return string_of(&out);
                },
                Some(open) => {
                    let ghost after = rest.skip(open - from + 1);
                    assert(after =~= s@.skip(open + 1));
                    match find_percent(&s, open + 1) {
                        None => {
                            let mut tail = sub_chars(&s, from, s.len());
                            out.append(&mut tail);
                            assert(s@.subrange(from as int, s.len() as int) =~= rest);
                            return string_of(&out);
                        },
                        Some(close) => {
                            let ghost before = out@;
                            let mut head = sub_chars(&s, from, open);
                            let mut name = sub_chars(&s, open + 1, close);
                            proof {
                                assert(head@ =~= rest.take(open - from));
                                assert(name@ =~= after.take(close - open - 1));
                                assert(after.skip(close - open - 1 + 1) =~= s@.skip(close + 1));
                            }
                            let text = string_of(&name);
                            out.append(&mut head);
                            match self.env_get(text.as_str()) {
                                Some(v) => {
                                    let mut value = chars_of(v.as_str());
                                    out.append(&mut value);
                                },
                                None => {
                                    out.push('%');
                                    out.append(&mut name);
                                    out.push('%');
                                },
                            }
                            proof {
                                let value = match env_value(self@, text@) {
                                    Some(v) => v,
                                    None => seq!['%'] + text@ + seq!['%'],
                                };
                                assert(out@ =~= before + rest.take(open - from) + value);
                                let tail = env_expanded(self@, s@.skip(close + 1));
                                assert(env_expanded(self@, rest) == rest.take(open - from) + value
                                    + tail);
                                assert(before + (rest.take(open - from) + value + tail) =~= out@
                                    + tail);
                            }
                            from = close + 1;
                        },
                    }
                },
            }
        }
    }
}

/// One of the variables that a process starts with.
fn var(name: &str, value: &str) -> (v: Var)
    ensures
        v@ == (VarView { name: name@, value: value@ }),
{
    let n = chars_of(name);
    let w = chars_of(value);
    Var { name: string_of(&n), value: string_of(&w) }
}

/// The variables that a process starts with.
pub open spec fn default_vars() -> Seq<VarView> {
    seq![
        VarView { name: "ALLUSERSPROFILE"@, value: "C:\\ProgramData"@ },
        VarView { name: "APPDATA"@, value: "C:\\Users\\exemu\\AppData\\Roaming"@ },
        VarView { name: "CommonProgramFiles"@, value: "C:\\Program Files\\Common Files"@ },
        VarView { name: "COMPUTERNAME"@, value: "EXEMU"@ },
        VarView { name: "ComSpec"@, value: "C:\\Windows\\system32\\cmd.exe"@ },
        VarView { name: "HOMEDRIVE"@, value: "C:"@ },
        VarView { name: "HOMEPATH"@, value: "\\Users\\exemu"@ },
        VarView { name: "LOCALAPPDATA"@, value: "C:\\Users\\exemu\\AppData\\Local"@ },
        VarView { name: "NUMBER_OF_PROCESSORS"@, value: "8"@ },
        VarView { name: "OS"@, value: "Windows_NT"@ },
        VarView { name: "Path"@, value: "C:\\Windows;C:\\Windows\\system32;C:\\Windows\\System32\\Wbem"@ },
        VarView { name: "PATHEXT"@, value: ".COM;.EXE;.BAT;.CMD;.VBS;.JS"@ },
        VarView { name: "PROCESSOR_ARCHITECTURE"@, value: "AMD64"@ },
        VarView { name: "ProgramData"@, value: "C:\\ProgramData"@ },
        VarView { name: "ProgramFiles"@, value: "C:\\Program Files"@ },
        VarView { name: "ProgramFiles(x86)"@, value: "C:\\Program Files (x86)"@ },
        VarView { name: "SystemDrive"@, value: "C:"@ },
        VarView { name: "SystemRoot"@, value: "C:\\Windows"@ },
        VarView { name: "TEMP"@, value: "C:\\Temp"@ },
        VarView { name: "TMP"@, value: "C:\\Temp"@ },
        VarView { name: "USERDOMAIN"@, value: "EXEMU"@ },
        VarView { name: "USERNAME"@, value: "exemu"@ },
        VarView { name: "USERPROFILE"@, value: "C:\\Users\\exemu"@ },
        VarView { name: "windir"@, value: "C:\\Windows"@ },
    ]
}

/// The environment that a process starts with.
pub fn default_environment() -> (e: Environment)
    ensures
        e@ == default_vars(),
{
    let mut vars: Vec<Var> = Vec::new();
    vars.push(var("ALLUSERSPROFILE", "C:\\ProgramData"));
    vars.push(var("APPDATA", "C:\\Users\\exemu\\AppData\\Roaming"));
    vars.push(var("CommonProgramFiles", "C:\\Program Files\\Common Files"));
    vars.push(var("COMPUTERNAME", "EXEMU"));
    vars.push(var("ComSpec", "C:\\Windows\\system32\\cmd.exe"));
    vars.push(var("HOMEDRIVE", "C:"));
    vars.push(var("HOMEPATH", "\\Users\\exemu"));
    vars.push(var("LOCALAPPDATA", "C:\\Users\\exemu\\AppData\\Local"));
    vars.push(var("NUMBER_OF_PROCESSORS", "8"));
    vars.push(var("OS", "Windows_NT"));
    vars.push(var("Path", "C:\\Windows;C:\\Windows\\system32;C:\\Windows\\System32\\Wbem"));
    vars.push(var("PATHEXT", ".COM;.EXE;.BAT;.CMD;.VBS;.JS"));
    vars.push(var("PROCESSOR_ARCHITECTURE", "AMD64"));
    vars.push(var("ProgramData", "C:\\ProgramData"));
    vars.push(var("ProgramFiles", "C:\\Program Files"));
    vars.push(var("ProgramFiles(x86)", "C:\\Program Files (x86)"));
    vars.push(var("SystemDrive", "C:"));
    vars.push(var("SystemRoot", "C:\\Windows"));
    vars.push(var("TEMP", "C:\\Temp"));
    vars.push(var("TMP", "C:\\Temp"));
    vars.push(var("USERDOMAIN", "EXEMU"));
    vars.push(var("USERNAME", "exemu"));
    vars.push(var("USERPROFILE", "C:\\Users\\exemu"));
    vars.push(var("windir", "C:\\Windows"));
    let e = Environment { vars };
    assert(e@ =~= default_vars());
    e
}

/// A search finds the one variable of a name.
proof fn lemma_env_find(e: Seq<VarView>, name: Seq<char>, i: int)
    requires
        env_wf(e),
        0 <= i < e.len(),
        same_ignoring_case(e[i].name, name),
    ensures
        env_find(e, name) == Some(i),
{
    assert forall|j: int| 0 <= j < i implies !is_called(name)(#[trigger] e[j]) by {
        assert(!same_ignoring_case(e[j].name, e[i].name));
    }
    lemma_first_index_is(e, is_called(name), i);
}

/// Setting and removing keep the names apart.
pub proof fn lemma_env_with_wf(e: Seq<VarView>, name: Seq<char>, value: Option<Seq<char>>)
    requires
        env_wf(e),
    ensures
        env_wf(env_with(e, name, value)),
{
    lemma_first_index(e, is_called(name));
    let f = env_with(e, name, value);
    assert forall|i: int, j: int| 0 <= i < j < f.len() implies !same_ignoring_case(
        (#[trigger] f[i]).name,
        (#[trigger] f[j]).name,
    ) by {
        match (env_find(e, name), value) {
            (Some(k), Some(_)) => {
                assert(!same_ignoring_case(e[i].name, e[j].name));
            },
            (Some(k), None) => {
                let oi = if i < k {
                    i
                } else {
                    i + 1
                };
                let oj = if j < k {
                    j
                } else {
                    j + 1
                };
                assert(!same_ignoring_case(e[oi].name, e[oj].name));
            },
            (None, Some(_)) => {
                if j == e.len() {
                    assert(!is_called(name)(e[i]));
                } else {
                    assert(!same_ignoring_case(e[i].name, e[j].name));
                }
            },
            (None, None) => {
                assert(!same_ignoring_case(e[i].name, e[j].name));
            },
        }
    }
}

/// What was set is read back under the name in any case, a removed variable is
/// gone, and every other variable keeps its value.
pub proof fn lemma_env_set_get(
    e: Seq<VarView>,
    name: Seq<char>,
    value: Option<Seq<char>>,
    other: Seq<char>,
)
    requires
        env_wf(e),
    ensures
        same_ignoring_case(name, other) ==> env_value(env_with(e, name, value), other) == value,
        !same_ignoring_case(name, other) ==> env_value(env_with(e, name, value), other)
            == env_value(e, other),
{
    let f = env_with(e, name, value);
    lemma_env_with_wf(e, name, value);
    lemma_first_index(e, is_called(name));
    lemma_first_index(e, is_called(other));
    lemma_first_index(f, is_called(other));
    let at = env_find(e, name);
    if same_ignoring_case(name, other) {
        match (at, value) {
            (Some(k), Some(_)) => {
                assert(is_called(name)(e[k]));
                lemma_env_find(f, other, k);
            },
            (Some(k), None) => {
                assert(is_called(name)(e[k]));
                assert forall|j: int| 0 <= j < f.len() implies !is_called(other)(
                    #[trigger] f[j],
                ) by {
                    let oj = if j < k {
                        j
                    } else {
                        j + 1
                    };
                    if oj < k {
                        assert(!same_ignoring_case(e[oj].name, e[k].name));
                    } else {
                        assert(!same_ignoring_case(e[k].name, e[oj].name));
                    }
                }
                lemma_first_index_none(f, is_called(other));
            },
            (None, Some(_)) => {
                assert(f[e.len() as int].name == name);
                lemma_env_find(f, other, e.len() as int);
            },
            (None, None) => {
                assert forall|j: int| 0 <= j < f.len() implies !is_called(other)(
                    #[trigger] f[j],
                ) by {
                    assert(!is_called(name)(e[j]));
                }
                lemma_first_index_none(f, is_called(other));
            },
        }
    } else {
        match env_find(e, other) {
            Some(i) => {
                assert(is_called(other)(e[i]));
                if at is Some {
                    assert(is_called(name)(e[at->0]));
                }
                let ni = if at is Some && value is None && at->0 < i {
                    i - 1
                } else {
                    i
                };
                assert(f[ni] == e[i]);
                lemma_env_find(f, other, ni);
            },
            None => {
                assert forall|j: int| 0 <= j < f.len() implies !is_called(other)(
                    #[trigger] f[j],
                ) by {
                    let oj = if at is Some && value is None && at->0 <= j {
                        j + 1
                    } else {
                        j
                    };
                    if oj < e.len() {
                        assert(!is_called(other)(e[oj]));
                    }
                }
                lemma_first_index_none(f, is_called(other));
            },
        }
    }
}

/// Where no variable is known, every text stays as it is written.
pub proof fn lemma_expand_unknown(e: Seq<VarView>, s: Seq<char>)
    requires
        forall|name: Seq<char>| #[trigger] env_value(e, name) is None,
    ensures
        env_expanded(e, s) == s,
    decreases s.len(),
{
    lemma_first_index(s, is_percent());
    if let Some(open) = first_index(s, is_percent()) {
        let after = s.skip(open + 1);
        lemma_first_index(after, is_percent());
        if let Some(close) = first_index(after, is_percent()) {
            let name = after.take(close);
            let rest = after.skip(close + 1);
            lemma_expand_unknown(e, rest);
            assert(env_value(e, name) is None);
            assert(s =~= s.take(open) + (seq!['%'] + name + seq!['%']) + rest);
        }
    }
}

/// A reference to a known variable is replaced by its value, behind a text without
/// a percent sign and before whatever the rest expands to.
pub proof fn lemma_expand_known(e: Seq<VarView>, before: Seq<char>, name: Seq<char>, rest: Seq<char>)
    requires
        forall|i: int| 0 <= i < before.len() ==> #[trigger] before[i] != '%',
        forall|i: int| 0 <= i < name.len() ==> #[trigger] name[i] != '%',
        env_value(e, name) is Some,
    ensures
        env_expanded(e, before + seq!['%'] + name + seq!['%'] + rest) == before + env_value(
            e,
            name,
        )->0 + env_expanded(e, rest),
{
    let s = before + seq!['%'] + name + seq!['%'] + rest;
    let open = before.len() as int;
    let close = name.len() as int;
    assert forall|j: int| 0 <= j < open implies !is_percent()(#[trigger] s[j]) by {
        assert(s[j] == before[j]);
    }
    assert(s[open] == '%');
    lemma_first_index_is(s, is_percent(), open);
    let after = s.skip(open + 1);
    assert(after =~= name + seq!['%'] + rest);
    assert forall|j: int| 0 <= j < close implies !is_percent()(#[trigger] after[j]) by {
        assert(after[j] == name[j]);
    }
    assert(after[close] == '%');
    lemma_first_index_is(after, is_percent(), close);
    assert(after.take(close) =~= name);
    assert(after.skip(close + 1) =~= rest);
    assert(s.take(open) =~= before);
}

} // verus!
