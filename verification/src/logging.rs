use vstd::prelude::*;
use vstd::string::*;
use crate::text::{starts_with, str_starts_with, str_eq};

verus! {

/// Decides whether the rolling log file is rolled over: once, at startup,
/// and only when a log file from an earlier run is already there.
#[derive(Debug)]
pub struct StartupRollTrigger {
    pub triggered: bool,
    pub exists: bool,
}

impl Default for StartupRollTrigger {
    fn default() -> (r: Self)
        ensures
            !r.triggered,
            !r.exists,
    {
        StartupRollTrigger { triggered: false, exists: false }
    }
}

impl StartupRollTrigger {
    /// A trigger that has not fired yet; `exists` tells whether a log file
    /// from an earlier run is present.
    pub fn new(exists: bool) -> (r: Self)
        ensures
            !r.triggered,
            r.exists == exists,
    {
        StartupRollTrigger { triggered: false, exists }
    }

    /// The trigger is checked before each record is written.
    pub fn is_pre_process(&self) -> (r: bool)
        ensures
            r,
    {
        true
    }

    /// What a check answers in this state: roll only on the first check,
    /// and only when an old log file is present.
    pub open spec fn answer(self) -> bool {
        !self.triggered && self.exists
    }

    /// The state after a check.
    pub open spec fn checked(self) -> Self {
        StartupRollTrigger { triggered: true, exists: self.exists }
    }

    /// Whether the log file is to be rolled over now.
    pub fn trigger(&mut self) -> (r: bool)
        ensures
            r == old(self).answer(),
            *final(self) == old(self).checked(),
    {
        if !self.triggered {
            self.triggered = true;
            self.exists
        } else {
            false
        }
    }
}

/// The log file is rolled over at most once: after the first check, no
/// later check asks for it again.
pub proof fn rolls_at_most_once(t: StartupRollTrigger)
    ensures
        !t.checked().answer(),
        t.checked().checked() == t.checked(),
{
}

/// What a log filter answers for a record.
#[derive(Debug, Clone, Copy, PartialEq, Eq, Structural)]
pub enum FilterResponse {
    Accept,
    Reject,
}

/// Some string of `v` holds the characters `m`.
pub open spec fn lists(v: Seq<String>, m: Seq<char>) -> bool {
    exists|k: int| 0 <= k < v.len() && v[k]@ == m
}

/// One of the first `n` names holds the characters `m`.
pub open spec fn named_among(names: Seq<&str>, n: int, m: Seq<char>) -> bool {
    exists|j: int| 0 <= j < n && names[j]@ == m
}

/// Lets through only the records of the listed modules and their
/// submodules.
#[derive(Debug, Default)]
pub struct ModuleFilter {
    module_list: Vec<String>,
}

impl ModuleFilter {
    /// The module names the filter lets through.
    pub closed spec fn modules(&self) -> Set<Seq<char>> {
        Set::new(|m: Seq<char>| lists(self.module_list@, m))
    }

    /// No module name is listed twice.
    pub closed spec fn wf(&self) -> bool {
        forall|i: int, j: int|
            0 <= i < j < self.module_list.len() ==> self.module_list[i]@ != self.module_list[j]@
    }

    /// Whether a record from the module at `path` is let through: the path
    /// begins with one of the listed names.
    pub open spec fn accepts(&self, path: Seq<char>) -> bool {
        exists|m: Seq<char>| self.modules().contains(m) && starts_with(path, m)
    }

    /// A filter for the given module names; names given twice are kept once.
    pub fn new(module_name: &[&str]) -> (r: Self)
        ensures
            r.wf(),
            forall|m: Seq<char>|
                #![trigger r.modules().contains(m)]
                r.modules().contains(m) <==> named_among(module_name@, module_name@.len() as int, m),
    {
        let mut module_list: Vec<String> = Vec::new();
        let mut i: usize = 0;
        while i < module_name.len()
            invariant
                i <= module_name@.len(),
                forall|a: int, b: int|
                    0 <= a < b < module_list.len() ==> module_list[a]@ != module_list[b]@,
                forall|m: Seq<char>|
                    #![trigger lists(module_list@, m)]
                    #![trigger named_among(module_name@, i as int, m)]
                    lists(module_list@, m) <==> named_among(module_name@, i as int, m),
            decreases module_name@.len() - i,
        {
            let name: &str = module_name[i];
            let mut found = false;
            let mut k: usize = 0;
            while k < module_list.len()
                invariant
                    k <= module_list.len(),
                    found <==> exists|x: int| 0 <= x < k && module_list[x]@ == name@,
                decreases module_list.len() - k,
            {
                if str_eq(module_list[k].as_str(), name) {
                    found = true;
                }
                k = k + 1;
            }
            let ghost before = module_list@;
            if !found {
                module_list.push(crate::text::to_string(name));
            }
            proof {
                assert forall|m: Seq<char>|
                    lists(module_list@, m) <==> named_among(module_name@, i + 1, m) by {
                    if named_among(module_name@, i + 1, m) {
                        let j = choose|j: int| 0 <= j < i + 1 && module_name@[j]@ == m;
                        if j < i {
                            assert(named_among(module_name@, i as int, m));
                            let x = choose|x: int| 0 <= x < before.len() && before[x]@ == m;
                            assert(module_list@[x]@ == m);
                        } else if !found {
                            assert(module_list@[before.len() as int]@ == m);
                        } else {
                            let x = choose|x: int| 0 <= x < before.len() && before[x]@ == name@;
                            assert(module_list@[x]@ == m);
                        }
                    }
                    if lists(module_list@, m) {
                        let x = choose|x: int| 0 <= x < module_list.len() && module_list@[x]@ == m;
                        if x < before.len() {
                            assert(lists(before, m));
                            assert(named_among(module_name@, i as int, m));
                            let j = choose|j: int| 0 <= j < i && module_name@[j]@ == m;
                            assert(module_name@[j]@ == m);
                        } else {
                            assert(module_name@[i as int]@ == m);
                        }
                    }
                }
            }
            i = i + 1;
        }
        let r = ModuleFilter { module_list };
        assert forall|m: Seq<char>|
            r.modules().contains(m) <==> named_among(module_name@, module_name@.len() as int, m) by {
            assert(r.modules().contains(m) == lists(r.module_list@, m));
        }
        r
    }

    /// Whether to let through a record logged from `record_module`; a record
    /// that names no module is taken to come from the empty path.
    pub fn filter(&self, record_module: Option<&str>) -> (r: FilterResponse)
        ensures
            r == FilterResponse::Accept <==> self.accepts(record_path(record_module)),
    {
        let path: &str = match record_module {
            Some(p) => p,
            None => "",
        };
        proof {
            reveal_strlit("");
        }
        let ghost pv: Seq<char> = record_path(record_module);
        assert(path@ =~= pv);
        let mut k: usize = 0;
        while k < self.module_list.len()
            invariant
                k <= self.module_list.len(),
                path@ == pv,
                pv == record_path(record_module),
                forall|x: int| 0 <= x < k ==> !starts_with(pv, #[trigger] self.module_list[x]@),
            decreases self.module_list.len() - k,
        {
            if str_starts_with(path, self.module_list[k].as_str()) {
                assert(lists(self.module_list@, self.module_list@[k as int]@));
                assert(self.modules().contains(self.module_list[k as int]@));
                assert(starts_with(pv, self.module_list@[k as int]@));
                return FilterResponse::Accept;
            }
            k = k + 1;
        }
        proof {
            if self.accepts(pv) {
                let m = choose|m: Seq<char>| self.modules().contains(m) && starts_with(pv, m);
                assert(lists(self.module_list@, m));
                let x = choose|x: int| 0 <= x < self.module_list.len() && self.module_list@[x]@ == m;
                assert(!starts_with(pv, self.module_list[x]@));
            }
        }
        FilterResponse::Reject
    }
}

/// A module that is let through lets its submodules through: whatever is
/// appended to an accepted path is accepted too.
pub proof fn submodules_accepted(f: &ModuleFilter, path: Seq<char>, more: Seq<char>)
    requires
        f.accepts(path),
    ensures
        f.accepts(path + more),
{
    let m = choose|m: Seq<char>| f.modules().contains(m) && starts_with(path, m);
    assert((path + more).subrange(0, m.len() as int) =~= path.subrange(0, m.len() as int));
    assert(starts_with(path + more, m));
}

/// The module path a record is taken to come from: the empty path when it
/// names none.
pub open spec fn record_path(record_module: Option<&str>) -> Seq<char> {
    match record_module {
        Some(p) => p@,
        None => Seq::<char>::empty(),
    }
}

/// Where the log goes when the directory of the requested file is missing,
/// or when the requested path names no directory at all.
pub open spec fn default_log_path() -> Seq<char> {
    seq!['.', '/', 'e', 'n', 'g', 'i', 'n', 'e', '.', 'l', 'o', 'g']
}

/// How many rolled-over log files are kept.
pub const LOG_FILE_COUNT: u32 = 7;

/// The file the log is written to: the requested `path` when its directory
/// exists, else the default. `parent_exists` is `None` when the path has no
/// directory part, and otherwise whether that directory exists.
pub fn log_file_path(path: &str, parent_exists: Option<bool>) -> (r: String)
    ensures
        r@ == if parent_exists == Some(true) {
            path@
        } else {
            default_log_path()
        },
{
    match parent_exists {
        Some(true) => crate::text::to_string(path),
        _ => {
            proof {
                reveal_strlit("./engine.log");
            }
            let r = crate::text::to_string("./engine.log");
            assert(r@ =~= default_log_path());
            r
        },
    }
}

/// The name pattern of rolled-over log files: the log path, then `.{}.gz`,
/// where the roller puts the file's number in place of `{}`.
pub fn archive_pattern(path: &str) -> (r: String)
    ensures
        r@ == path@ + ".{}.gz"@,
{
    let mut s = crate::text::to_string(path);
    s.append(".{}.gz");
    s
}

/// The name of the appender the log goes through: the console, or the
/// rolling log file.
pub fn appender_name(console: bool) -> (r: &'static str)
    ensures
        r@ == if console {
            "stdout"@
        } else {
            "logfile"@
        },
{
    if console {
        "stdout"
    } else {
        "logfile"
    }
}

} // verus!
