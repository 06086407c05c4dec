use vstd::prelude::*;
use vstd::string::*;
use std::io::Cursor;
use zip::result::ZipError;
use zip::ZipArchive;
use crate::table::{ScriptTable, insert_all, pair_views};
use crate::text::{ends_with, str_ends_with};

verus! {

#[verifier::external_type_specification]
#[verifier::external_body]
#[verifier::reject_recursive_types(R)]
pub struct ExZipArchive<R>(ZipArchive<R>);

#[verifier::external_type_specification]
#[verifier::external_body]
#[verifier::reject_recursive_types(T)]
pub struct ExCursor<T>(Cursor<T>);

#[verifier::external_type_specification]
#[verifier::external_body]
pub struct ExZipError(ZipError);

/// The final component of the path `p`, as `Path::file_name` gives it.
pub uninterp spec fn path_file_name_of(p: Seq<char>) -> Option<Seq<char>>;

/// The path `p` without its final component, as `Path::parent` gives it.
pub uninterp spec fn path_parent_of(p: Seq<char>) -> Option<Seq<char>>;

/// The path `p` with the extension of its file name removed, as
/// `Path::with_extension("")` gives it.
pub uninterp spec fn path_without_extension_of(p: Seq<char>) -> Seq<char>;

/// Calls `Path::file_name` on `p`; the claim is only that the result is the
/// named one, read back as text.
#[verifier::external_body]
fn path_file_name(p: &str) -> (r: Option<String>)
    ensures
        match r {
            Some(f) => path_file_name_of(p@) == Some(f@),
            None => path_file_name_of(p@) is None,
        },
{
    match std::path::Path::new(p).file_name() {
        Some(f) => Some(f.to_string_lossy().into_owned()),
        None => None,
    }
}

/// Calls `Path::parent` on `p`; the claim is only that the result is the
/// named one, read back as text.
#[verifier::external_body]
fn path_parent(p: &str) -> (r: Option<String>)
    ensures
        match r {
            Some(f) => path_parent_of(p@) == Some(f@),
            None => path_parent_of(p@) is None,
        },
{
    match std::path::Path::new(p).parent() {
        Some(f) => Some(f.to_string_lossy().into_owned()),
        None => None,
    }
}

/// Calls `Path::with_extension("")` on `p`; the claim is only that the
/// result is the named one, read back as text.
#[verifier::external_body]
fn path_without_extension(p: &str) -> (r: String)
    ensures
        r@ == path_without_extension_of(p@),
{
    std::path::Path::new(p).with_extension("").to_string_lossy().into_owned()
}

/// What reading every entry of the zip archive in `bytes` gives, in the
/// archive's order: `None` when the bytes are not an archive; per entry, its
/// name and text, or `None` when that entry cannot be read as text.
pub uninterp spec fn zip_contents(bytes: Seq<u8>) -> Option<Seq<Option<(Seq<char>, Seq<char>)>>>;

/// What reading each entry of an opened archive gives, in order.
pub uninterp spec fn zip_entries(archive: ZipArchive<Cursor<Vec<u8>>>) -> Seq<
    Option<(Seq<char>, Seq<char>)>,
>;

/// Calls `ZipArchive::new` on the bytes. It succeeds exactly when they are
/// an archive, and the archive then holds the named entries.
#[verifier::external_body]
fn zip_open(bytes: Vec<u8>) -> (r: Result<ZipArchive<Cursor<Vec<u8>>>, ZipError>)
    ensures
        r is Ok <==> zip_contents(bytes@) is Some,
        r matches Ok(a) ==> zip_entries(a) == zip_contents(bytes@)->0,
{
    ZipArchive::new(Cursor::new(bytes))
}

/// Calls `ZipArchive::len`: the number of entries.
#[verifier::external_body]
fn zip_len(archive: &ZipArchive<Cursor<Vec<u8>>>) -> (r: usize)
    ensures
        r == zip_entries(*archive).len(),
{
    archive.len()
}

/// Calls `ZipArchive::by_index` and reads the entry to the end as text with
/// `Read::read_to_string`. It succeeds exactly when the entry exists and can
/// be read as text, and then gives the entry's name and text. Reading moves
/// the archive's reader but not what its entries hold.
#[verifier::external_body]
fn zip_read_entry(archive: &mut ZipArchive<Cursor<Vec<u8>>>, index: usize) -> (r: Result<
    (String, String),
    ZipError,
>)
    ensures
        zip_entries(*final(archive)) == zip_entries(*old(archive)),
        r is Ok <==> (index < zip_entries(*old(archive)).len() && zip_entries(
            *old(archive),
        )[index as int] is Some),
        r matches Ok((n, c)) ==> (n@, c@) == zip_entries(*old(archive))[index as int]->0,
{
    let mut file = archive.by_index(index)?;
    let mut content = String::new();
    std::io::Read::read_to_string(&mut file, &mut content)?;
    Ok((file.name().to_string(), content))
}

/// The extension of the file name `f`, as `Path::extension` documents it:
/// none for `..`, none without a dot, none when the only dot begins the
/// name; otherwise what follows the last dot.
pub open spec fn file_extension(f: Seq<char>) -> Option<Seq<char>> {
    if f == seq!['.', '.'] {
        None
    } else {
        let k = last_dot(f, f.len() as int);
        if k <= 0 {
            None
        } else {
            Some(f.subrange(k + 1, f.len() as int))
        }
    }
}

/// The index of the last dot among the first `n` characters of `f`, or -1.
pub open spec fn last_dot(f: Seq<char>, n: int) -> int
    decreases n,
{
    if n <= 0 {
        -1
    } else if f[n - 1] == '.' {
        n - 1
    } else {
        last_dot(f, n - 1)
    }
}

proof fn lemma_last_dot_bounds(f: Seq<char>, n: int)
    requires
        0 <= n <= f.len(),
    ensures
        -1 <= last_dot(f, n) < n,
        last_dot(f, n) >= 0 ==> f[last_dot(f, n)] == '.',
        forall|j: int| last_dot(f, n) < j < n ==> f[j] != '.',
    decreases n,
{
    if n > 0 {
        lemma_last_dot_bounds(f, n - 1);
    }
}

/// `lua` as a sequence of characters.
pub open spec fn lua_word() -> Seq<char> {
    seq!['l', 'u', 'a']
}

/// Whether the file name `f` has the extension `lua`: exactly when it ends
/// in `.lua` and that dot does not begin it.
proof fn lemma_lua_extension(f: Seq<char>)
    ensures
        (file_extension(f) == Some(lua_word())) == (f.len() > 4 && ends_with(
            f,
            seq!['.', 'l', 'u', 'a'],
        )),
{
    let n = f.len() as int;
    lemma_last_dot_bounds(f, n);
    let k = last_dot(f, n);
    if f.len() > 4 && ends_with(f, seq!['.', 'l', 'u', 'a']) {
        assert(f.subrange(n - 4, n)[0] == '.');
        assert(f[n - 4] == '.');
        assert(f.subrange(n - 4, n)[1] == 'l');
        assert(f.subrange(n - 4, n)[2] == 'u');
        assert(f.subrange(n - 4, n)[3] == 'a');
        assert(f[n - 3] != '.' && f[n - 2] != '.' && f[n - 1] != '.');
        if k < n - 4 {
            assert(f[n - 4] != '.');
        }
        assert(k == n - 4);
        assert(f != seq!['.', '.']);
        assert(f.subrange(k + 1, n) =~= lua_word());
    }
    if file_extension(f) == Some(lua_word()) {
        assert(f != seq!['.', '.']);
        assert(k > 0);
        assert(f.subrange(k + 1, n) == lua_word());
        assert(f.subrange(k + 1, n).len() == n - (k + 1));
        assert(n - k - 1 == 3);
        assert(f.subrange(n - 4, n) =~= seq!['.', 'l', 'u', 'a']) by {
            assert(f.subrange(k + 1, n)[0] == 'l');
            assert(f.subrange(k + 1, n)[1] == 'u');
            assert(f.subrange(k + 1, n)[2] == 'a');
        }
    }
}

/// Whether the file name `f` has the extension `lua`.
fn has_lua_extension(f: &str) -> (r: bool)
    ensures
        r == (file_extension(f@) == Some(lua_word())),
{
    proof {
        lemma_lua_extension(f@);
        reveal_strlit(".lua");
        assert(".lua"@ =~= seq!['.', 'l', 'u', 'a']);
    }
    f.unicode_len() > 4 && str_ends_with(f, ".lua")
}

/// `s` with every `/` and `\` turned into `.`: a path as a module name.
pub open spec fn dotted(s: Seq<char>) -> Seq<char> {
    s.map_values(|c: char| if c == '/' || c == '\\' { '.' } else { c })
}

/// Turns every `/` and `\` of `s` into `.`.
pub fn to_dotted(s: &str) -> (r: String)
    ensures
        r@ == dotted(s@),
{
    let n = s.unicode_len();
    let mut out = String::new();
    let mut i: usize = 0;
    while i < n
        invariant
            n == s@.len(),
            i <= n,
            out@ == dotted(s@.take(i as int)),
        decreases n - i,
    {
        let c = s.get_char(i);
        let d = if c == '/' || c == '\\' {
            '.'
        } else {
            c
        };
        crate::text::push_char(&mut out, d);
        proof {
            assert(dotted(s@.take(i + 1)) =~= dotted(s@.take(i as int)).push(d));
        }
        i = i + 1;
    }
    assert(s@.take(n as int) =~= s@);
    out
}

/// `init.lua` as a sequence of characters.
pub open spec fn init_lua() -> Seq<char> {
    seq!['i', 'n', 'i', 't', '.', 'l', 'u', 'a']
}

/// Whether a resource called `name` is a Lua module: its file name has the
/// extension `lua`, or the path ends in the component `init.lua`.
pub open spec fn is_lua_resource(name: Seq<char>) -> bool {
    match path_file_name_of(name) {
        Some(f) => file_extension(f) == Some(lua_word()) || f == init_lua(),
        None => false,
    }
}

/// The module a Lua resource called `name` defines: its path without the
/// extension, with separators turned into dots.
pub open spec fn resource_module_name(name: Seq<char>) -> Seq<char> {
    dotted(path_without_extension_of(name))
}

/// The modules the resources `res` define, in order.
pub open spec fn resource_modules(res: Seq<(Seq<char>, Seq<char>)>) -> Seq<(Seq<char>, Seq<char>)>
    decreases res.len(),
{
    if res.len() == 0 {
        Seq::empty()
    } else {
        let last = res.last();
        resource_modules(res.drop_last()) + if is_lua_resource(last.0) {
            seq![(resource_module_name(last.0), last.1)]
        } else {
            Seq::empty()
        }
    }
}

/// Lua modules loaded from resources held in memory, by module name.
#[derive(Debug, Clone)]
pub struct MemoryModule {
    modules: ScriptTable,
}

impl MemoryModule {
    /// The modules by name.
    pub closed spec fn view_map(&self) -> Map<Seq<char>, Seq<char>> {
        self.modules.view_map()
    }

    /// The table is well formed.
    pub closed spec fn wf(&self) -> bool {
        self.modules.wf()
    }

    /// No modules.
    pub fn new() -> (r: Self)
        ensures
            r.wf(),
            r.view_map() == Map::<Seq<char>, Seq<char>>::empty(),
    {
        MemoryModule { modules: ScriptTable::new() }
    }

    /// Whether a resource called `name` is a Lua module.
    pub fn is_lua_resource(name: &str) -> (r: bool)
        ensures
            r == is_lua_resource(name@),
    {
        proof {
            reveal_strlit("init.lua");
            assert("init.lua"@ =~= init_lua());
        }
        match path_file_name(name) {
            Some(f) => has_lua_extension(f.as_str()) || crate::text::str_eq(f.as_str(), "init.lua"),
            None => false,
        }
    }

    /// Loads every Lua module among `resources`, given as name and text, in
    /// order: each is stored under its module name, a later one replacing
    /// an earlier one of the same name.
    pub fn load_lua_modules(&mut self, resources: Vec<(String, String)>)
        requires
            old(self).wf(),
        ensures
            final(self).wf(),
            final(self).view_map() == insert_all(
                old(self).view_map(),
                resource_modules(pair_views(resources@)),
            ),
    {
        let mut found: Vec<(String, String)> = Vec::new();
        let mut i: usize = 0;
        while i < resources.len()
            invariant
                i <= resources.len(),
                pair_views(found@) == resource_modules(pair_views(resources@).take(i as int)),
            decreases resources.len() - i,
        {
            let name = resources[i].0.as_str();
            let ghost before = found@;
            if Self::is_lua_resource(name) {
                let stem = path_without_extension(name);
                let module = to_dotted(stem.as_str());
                found.push((module, crate::text::to_string(resources[i].1.as_str())));
            }
            proof {
                let pv = pair_views(resources@);
                assert(pv.take(i + 1).drop_last() =~= pv.take(i as int));
                assert(pv.take(i + 1).last() == pv[i as int]);
                assert(pair_views(found@) =~= resource_modules(pv.take(i + 1)));
            }
            i = i + 1;
        }
        proof {
            assert(pair_views(resources@).take(resources.len() as int) =~= pair_views(resources@));
        }
        self.modules.insert_pairs(found);
    }

    /// The text of the module called `name`.
    pub fn find_module(&self, name: &str) -> (r: Option<String>)
        requires
            self.wf(),
        ensures
            match r {
                Some(v) => self.view_map().dom().contains(name@) && v@ == self.view_map()[name@],
                None => !self.view_map().dom().contains(name@),
            },
    {
        self.modules.get(name)
    }
}

/// Why the scripts of a zip file could not be loaded.
#[derive(Debug, Clone, Copy, PartialEq, Eq, Structural)]
pub enum ZipScriptError {
    /// The file could not be read.
    Unreadable,
    /// The file is not a zip archive.
    NotAnArchive,
    /// An entry could not be read as text.
    BadEntry,
}

/// The modules one zip entry called `n` with text `c` defines, for the zip
/// whose module prefix is `zip`: an `init.lua` defines its directory as a
/// module, and every `.lua` file defines its path as one.
pub open spec fn entry_modules(zip: Seq<char>, n: Seq<char>, c: Seq<char>) -> Seq<
    (Seq<char>, Seq<char>),
> {
    (if ends_with(n, init_lua()) {
        seq![
            (zip + seq!['.'] + dotted(
                match path_parent_of(n) {
                    Some(p) => p,
                    None => Seq::empty(),
                },
            ), c),
        ]
    } else {
        Seq::empty()
    }) + (if (match path_file_name_of(n) {
        Some(f) => file_extension(f) == Some(lua_word()),
        None => false,
    }) {
        seq![(zip + seq!['.'] + dotted(path_without_extension_of(n)), c)]
    } else {
        Seq::empty()
    })
}

/// The modules the entries `es` of a zip define, in order.
pub open spec fn zip_modules(zip: Seq<char>, es: Seq<(Seq<char>, Seq<char>)>) -> Seq<
    (Seq<char>, Seq<char>),
>
    decreases es.len(),
{
    if es.len() == 0 {
        Seq::empty()
    } else {
        zip_modules(zip, es.drop_last()) + entry_modules(zip, es.last().0, es.last().1)
    }
}

/// Every entry could be read.
pub open spec fn all_read(es: Seq<Option<(Seq<char>, Seq<char>)>>) -> bool {
    forall|i: int| 0 <= i < es.len() ==> es[i] is Some
}

/// The entries, each read.
pub open spec fn read_entries(es: Seq<Option<(Seq<char>, Seq<char>)>>) -> Seq<(Seq<char>, Seq<char>)> {
    es.map_values(|e: Option<(Seq<char>, Seq<char>)>| e->0)
}

/// What loading the scripts of the zip in `bytes` under the prefix `zip`
/// gives: the modules, in entry order, or why there are none.
pub open spec fn zip_scripts(bytes: Seq<u8>, zip: Seq<char>) -> Result<
    Seq<(Seq<char>, Seq<char>)>,
    ZipScriptError,
> {
    match zip_contents(bytes) {
        None => Err(ZipScriptError::NotAnArchive),
        Some(es) => if all_read(es) {
            Ok(zip_modules(zip, read_entries(es)))
        } else {
            Err(ZipScriptError::BadEntry)
        },
    }
}

/// The module prefix of the zip file at `path`: its file name without the
/// extension.
pub open spec fn zip_prefix(path: Seq<char>) -> Option<Seq<char>> {
    path_file_name_of(path_without_extension_of(path))
}

/// What loading the zips `zips` (path, and bytes unless unreadable) does to
/// the module table `m`: a zip whose path has no file name is passed over,
/// one that fails to load adds nothing, and the modules of the others are
/// added in order.
pub open spec fn zips_loaded(
    m: Map<Seq<char>, Seq<char>>,
    zips: Seq<(Seq<char>, Option<Seq<u8>>)>,
) -> Map<Seq<char>, Seq<char>>
    decreases zips.len(),
{
    if zips.len() == 0 {
        m
    } else {
        let before = zips_loaded(m, zips.drop_last());
        let (path, bytes) = zips.last();
        match zip_prefix(path) {
            None => before,
            Some(prefix) => match bytes {
                None => before,
                Some(b) => match zip_scripts(b, prefix) {
                    Ok(mods) => insert_all(before, mods),
                    Err(_) => before,
                },
            },
        }
    }
}

/// The failures of loading the zips `zips`, in order: the path of each zip
/// that has a file name but failed to load, and why.
pub open spec fn zip_failures(zips: Seq<(Seq<char>, Option<Seq<u8>>)>) -> Seq<
    (Seq<char>, ZipScriptError),
>
    decreases zips.len(),
{
    if zips.len() == 0 {
        Seq::empty()
    } else {
        let before = zip_failures(zips.drop_last());
        let (path, bytes) = zips.last();
        match zip_prefix(path) {
            None => before,
            Some(prefix) => match bytes {
                None => before.push((path, ZipScriptError::Unreadable)),
                Some(b) => match zip_scripts(b, prefix) {
                    Ok(_) => before,
                    Err(e) => before.push((path, e)),
                },
            },
        }
    }
}

/// The characters of a zip path and its bytes.
pub open spec fn zip_views(v: Seq<(String, Option<Vec<u8>>)>) -> Seq<(Seq<char>, Option<Seq<u8>>)> {
    v.map_values(
        |z: (String, Option<Vec<u8>>)|
            (
                z.0@,
                match z.1 {
                    Some(b) => Some(b@),
                    None => None,
                },
            ),
    )
}

/// Lua modules loaded from zip files, by module name.
#[derive(Debug, Clone)]
pub struct LuaZipModule {
    modules: ScriptTable,
}

impl LuaZipModule {
    /// The modules by name.
    pub closed spec fn view_map(&self) -> Map<Seq<char>, Seq<char>> {
        self.modules.view_map()
    }

    /// The table is well formed.
    pub closed spec fn wf(&self) -> bool {
        self.modules.wf()
    }

    /// No modules.
    pub fn new() -> (r: Self)
        ensures
            r.wf(),
            r.view_map() == Map::<Seq<char>, Seq<char>>::empty(),
    {
        LuaZipModule { modules: ScriptTable::new() }
    }

    /// The modules one zip entry defines under the prefix `zip`.
    fn entry_modules(zip: &str, n: &str, c: &str) -> (r: Vec<(String, String)>)
        ensures
            pair_views(r@) == entry_modules(zip@, n@, c@),
    {
        let mut out: Vec<(String, String)> = Vec::new();
        let ghost first: Seq<(Seq<char>, Seq<char>)> = if ends_with(n@, init_lua()) {
            seq![
                (zip@ + seq!['.'] + dotted(
                    match path_parent_of(n@) {
                        Some(p) => p,
                        None => Seq::empty(),
                    },
                ), c@),
            ]
        } else {
            Seq::empty()
        };
        proof {
            reveal_strlit("init.lua");
            assert("init.lua"@ =~= init_lua());
            reveal_strlit(".");
            assert("."@ =~= seq!['.']);
        }
        if str_ends_with(n, "init.lua") {
            let dir = match path_parent(n) {
                Some(p) => p,
                None => String::new(),
            };
            assert(dir@ == match path_parent_of(n@) {
                Some(p) => p,
                None => Seq::<char>::empty(),
            });
            let mut key = crate::text::to_string(zip);
            key.append(".");
            let d = to_dotted(dir.as_str());
            key.append(d.as_str());
            assert(key@ == zip@ + seq!['.'] + d@);
            out.push((key, crate::text::to_string(c)));
            proof {
                assert(pair_views(out@) =~= first);
            }
        } else {
            assert(pair_views(out@) =~= first);
        }
        let ghost mid = out@;
        let lua = match path_file_name(n) {
            Some(f) => has_lua_extension(f.as_str()),
            None => false,
        };
        if lua {
            let stem = path_without_extension(n);
            let mut key = crate::text::to_string(zip);
            key.append(".");
            let d = to_dotted(stem.as_str());
            key.append(d.as_str());
            assert(key@ == zip@ + seq!['.'] + d@);
            out.push((key, crate::text::to_string(c)));
            proof {
                assert(pair_views(out@) =~= pair_views(mid).push(
                    (zip@ + seq!['.'] + dotted(path_without_extension_of(n@)), c@),
                ));
            }
        }
        assert(pair_views(out@) =~= entry_modules(zip@, n@, c@));
        out
    }

    /// Loads the scripts of the zip archive in `bytes`, naming each module
    /// after `name` and its path in the archive. Fails when the bytes are not
    /// an archive or an entry cannot be read as text.
    pub fn load_lua_scripts(bytes: &[u8], name: &str) -> (r: Result<
        Vec<(String, String)>,
        ZipScriptError,
    >)
        ensures
            match (r, zip_scripts(bytes@, name@)) {
                (Ok(v), Ok(m)) => pair_views(v@) == m,
                (Err(e), Err(f)) => e == f,
                _ => false,
            },
    {
        let ghost bv = bytes@;
        let mut archive = match zip_open(vstd::slice::slice_to_vec(bytes)) {
            Ok(a) => a,
            Err(_) => {
                return Err(ZipScriptError::NotAnArchive);
            },
        };
        let ghost es = zip_entries(archive);
        let n = zip_len(&archive);
        let mut out: Vec<(String, String)> = Vec::new();
        let mut i: usize = 0;
        while i < n
            invariant
                n == es.len(),
                i <= n,
                zip_entries(archive) == es,
                zip_contents(bv) == Some(es),
                bv == bytes@,
                forall|j: int| 0 <= j < i ==> es[j] is Some,
                pair_views(out@) == zip_modules(name@, read_entries(es.take(i as int))),
            decreases n - i,
        {
            let (en, ec) = match zip_read_entry(&mut archive, i) {
                Ok(e) => e,
                Err(_) => {
                    assert(!all_read(es));
                    return Err(ZipScriptError::BadEntry);
                },
            };
            let ghost before = out@;
            let mut more = Self::entry_modules(name, en.as_str(), ec.as_str());
            out.append(&mut more);
            proof {
                let re = read_entries(es.take(i + 1));
                assert(re.drop_last() =~= read_entries(es.take(i as int)));
                assert(re.last() == (en@, ec@));
                assert(pair_views(out@) =~= pair_views(before) + entry_modules(name@, en@, ec@));
            }
            i = i + 1;
        }
        assert(es.take(n as int) =~= es);
        Ok(out)
    }

    /// Loads the scripts of each zip file in `zips`, given as its path and
    /// its bytes (`None` when it could not be read), in order; a zip whose
    /// path has no file name is passed over. Gives back each zip that failed
    /// to load, with the reason.
    pub fn add_zip_module(&mut self, zips: Vec<(String, Option<Vec<u8>>)>) -> (r: Vec<
        (String, ZipScriptError),
    >)
        requires
            old(self).wf(),
        ensures
            final(self).wf(),
            final(self).view_map() == zips_loaded(old(self).view_map(), zip_views(zips@)),
            r@.map_values(|f: (String, ZipScriptError)| (f.0@, f.1)) == zip_failures(
                zip_views(zips@),
            ),
    {
        let ghost start = self.view_map();
        let ghost zv = zip_views(zips@);
        let mut failures: Vec<(String, ZipScriptError)> = Vec::new();
        let mut i: usize = 0;
        while i < zips.len()
            invariant
                i <= zips.len(),
                zv == zip_views(zips@),
                self.wf(),
                self.view_map() == zips_loaded(start, zv.take(i as int)),
                failures@.map_values(|f: (String, ZipScriptError)| (f.0@, f.1)) == zip_failures(
                    zv.take(i as int),
                ),
            decreases zips.len() - i,
        {
            let ghost fb = failures@;
            proof {
                assert(zv.take(i + 1).drop_last() =~= zv.take(i as int));
                assert(zv.take(i + 1).last() == zv[i as int]);
            }
            let path = zips[i].0.as_str();
            let stem = path_without_extension(path);
            match path_file_name(stem.as_str()) {
                None => {},
                Some(prefix) => {
                    match &zips[i].1 {
                        None => {
                            failures.push((crate::text::to_string(path), ZipScriptError::Unreadable));
                            proof {
                                assert(failures@.map_values(
                                    |f: (String, ZipScriptError)| (f.0@, f.1),
                                ) =~= fb.map_values(|f: (String, ZipScriptError)| (f.0@, f.1)).push(
                                    (path@, ZipScriptError::Unreadable),
                                ));
                            }
                        },
                        Some(b) => {
                            match Self::load_lua_scripts(b.as_slice(), prefix.as_str()) {
                                Ok(mods) => {
                                    self.modules.insert_pairs(mods);
                                },
                                Err(e) => {
                                    failures.push((crate::text::to_string(path), e));
                                    proof {
                                        assert(failures@.map_values(
                                            |f: (String, ZipScriptError)| (f.0@, f.1),
                                        ) =~= fb.map_values(
                                            |f: (String, ZipScriptError)| (f.0@, f.1),
                                        ).push((path@, e)));
                                    }
                                },
                            }
                        },
                    }
                },
            }
            i = i + 1;
        }
        proof {
            assert(zv.take(zips.len() as int) =~= zv);
        }
        failures
    }

    /// The text of the module called `name`.
    pub fn find_module(&self, name: &str) -> (r: Option<String>)
        requires
            self.wf(),
        ensures
            match r {
                Some(v) => self.view_map().dom().contains(name@) && v@ == self.view_map()[name@],
                None => !self.view_map().dom().contains(name@),
            },
    {
        self.modules.get(name)
    }
}

} // verus!
