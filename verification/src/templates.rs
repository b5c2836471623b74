//! Templates: the manifest record, the stored-archive record, the
//! registry that scans a store directory's files, and the display
//! hierarchy of an archive's contents.

use vstd::prelude::*;

use crate::archive::{archive_members, Member};
use crate::commands::command::{Iteration, StoreError};
use crate::config::Config;
use crate::hash::{is_hex_char, name_digest, name_digest_hex};
use crate::manifest::{manifest_json, parse_manifest_chars, parse_manifest_str};
use crate::strutil::{dec_str, str_eq, u64_to_dec};

verus! {

/// The manifest record stored inside every archive: a logical name and
/// a version number. `(name, iteration)` identifies a stored archive.
pub struct TemplateInfo {
    pub name: String,
    pub iteration: Iteration,
}

/// A stored archive: its manifest record, the file it lives in, and its
/// size in bytes.
pub struct Template {
    pub info: TemplateInfo,
    pub filename: String,
    pub filesize: u64,
}

/// One file of the store directory, as handed in by the surrounding
/// program: its path and its bytes.
pub struct StoredFile {
    pub filename: String,
    pub data: Vec<u8>,
}

impl TemplateInfo {
    pub fn new(name: String, iteration: Iteration) -> (r: Self)
        ensures
            r.name@ == name@,
            r.iteration == iteration,
    {
        Self { name, iteration }
    }

    /// The deterministic path of this record's archive under the
    /// configured store directory.
    pub fn generate_output_path(&self, config: &Config) -> (r: String)
        ensures
            r@ == archive_path(config.template_dir@, self.name@, self.iteration),
    {
        let mut out = config.template_dir.clone();
        out.append("/");
        let digest = name_digest_hex(self.name.as_str());
        out.append(digest.as_str());
        out.append("-");
        let num = u64_to_dec(self.iteration);
        out.append(num.as_str());
        out.append(crate::globals::ARCHIVE_EXTENSION);
        out
    }
}

/// The file name under which `(name, iteration)` is stored: the
/// lowercase hex SHA-256 of the name, a dash, the decimal iteration,
/// and the archive extension.
pub open spec fn archive_file_name(name: Seq<char>, iteration: u64) -> Seq<char> {
    name_digest(name) + "-"@ + dec_str(iteration as nat)
        + crate::globals::ARCHIVE_EXTENSION@
}

/// The full path of the archive for `(name, iteration)` under `dir`.
pub open spec fn archive_path(dir: Seq<char>, name: Seq<char>, iteration: u64) -> Seq<char> {
    dir + "/"@ + archive_file_name(name, iteration)
}

/// Archive paths are deterministic: equal store directories, names and
/// iterations give the identical path.
pub proof fn lemma_archive_path_deterministic(
    dir1: Seq<char>,
    name1: Seq<char>,
    it1: u64,
    dir2: Seq<char>,
    name2: Seq<char>,
    it2: u64,
)
    requires
        dir1 == dir2,
        name1 == name2,
        it1 == it2,
    ensures
        archive_path(dir1, name1, it1) == archive_path(dir2, name2, it2),
{
}

/// Distinct names map to distinct paths, absent a digest collision:
/// when two names' digests differ at all, their archive paths differ,
/// whatever the iterations.
pub proof fn lemma_archive_path_injective(
    dir: Seq<char>,
    name1: Seq<char>,
    it1: u64,
    name2: Seq<char>,
    it2: u64,
)
    requires
        name_digest(name1) != name_digest(name2),
    ensures
        archive_path(dir, name1, it1) != archive_path(dir, name2, it2),
{
    let h1 = name_digest(name1);
    let h2 = name_digest(name2);
    let p1 = archive_path(dir, name1, it1);
    let p2 = archive_path(dir, name2, it2);
    crate::hash::hex_of_is_hex(crate::hash::sha256_of(vstd::utf8::encode_utf8(name1)));
    crate::hash::hex_of_is_hex(crate::hash::sha256_of(vstd::utf8::encode_utf8(name2)));
    if p1 == p2 {
        let base = dir.len() + 1;
        if h1.len() == h2.len() {
            assert(h1 =~= h2) by {
                assert forall|k: int| 0 <= k < h1.len() implies h1[k] == h2[k] by {
                    lemma_ap_digest_index(dir, name1, it1, k);
                    lemma_ap_digest_index(dir, name2, it2, k);
                    assert(p1[base + k] == h1[k]);
                    assert(p2[base + k] == h2[k]);
                }
            }
        } else if h1.len() < h2.len() {
            lemma_ap_dash_index(dir, name1, it1);
            lemma_ap_digest_index(dir, name2, it2, h1.len() as int);
            assert(p1[base + h1.len() as int] == '-');
            assert(p2[base + h1.len() as int] == h2[h1.len() as int]);
            assert(is_hex_char(h2[h1.len() as int]));
        } else {
            lemma_ap_dash_index(dir, name2, it2);
            lemma_ap_digest_index(dir, name1, it1, h2.len() as int);
            assert(p2[base + h2.len() as int] == '-');
            assert(p1[base + h2.len() as int] == h1[h2.len() as int]);
            assert(is_hex_char(h1[h2.len() as int]));
        }
    }
}

/// Distinct SHA-256 digests give distinct paths: the hypothesis of
/// `lemma_archive_path_injective`, pushed down to the raw digest by the
/// injectivity of hex rendering.
pub proof fn lemma_archive_path_injective_from_digest(
    dir: Seq<char>,
    name1: Seq<char>,
    it1: u64,
    name2: Seq<char>,
    it2: u64,
)
    requires
        crate::hash::sha256_of(vstd::utf8::encode_utf8(name1)) != crate::hash::sha256_of(
            vstd::utf8::encode_utf8(name2),
        ),
    ensures
        archive_path(dir, name1, it1) != archive_path(dir, name2, it2),
{
    if name_digest(name1) == name_digest(name2) {
        crate::hash::hex_of_injective(
            crate::hash::sha256_of(vstd::utf8::encode_utf8(name1)),
            crate::hash::sha256_of(vstd::utf8::encode_utf8(name2)),
        );
    }
    lemma_archive_path_injective(dir, name1, it1, name2, it2);
}

/// One name's archives are distinct across iterations: distinct
/// iterations give distinct paths.
pub proof fn lemma_archive_path_iteration_injective(
    dir: Seq<char>,
    name: Seq<char>,
    it1: u64,
    it2: u64,
)
    requires
        it1 != it2,
    ensures
        archive_path(dir, name, it1) != archive_path(dir, name, it2),
{
    let h = name_digest(name);
    let n1 = dec_str(it1 as nat);
    let n2 = dec_str(it2 as nat);
    let p1 = archive_path(dir, name, it1);
    let p2 = archive_path(dir, name, it2);
    if p1 == p2 {
        let slash = "/"@;
        let dash = "-"@;
        let ext = crate::globals::ARCHIVE_EXTENSION@;
        assert(p1 == dir + slash + (h + dash + n1 + ext));
        assert(p2 == dir + slash + (h + dash + n2 + ext));
        assert(p1.len() == dir.len() + slash.len() + h.len() + dash.len() + n1.len()
            + ext.len());
        assert(p2.len() == dir.len() + slash.len() + h.len() + dash.len() + n2.len()
            + ext.len());
        assert(n1.len() == n2.len());
        assert(n1 =~= n2) by {
            assert forall|k: int| 0 <= k < n1.len() implies n1[k] == n2[k] by {
                lemma_ap_num_index(dir, name, it1, k);
                lemma_ap_num_index(dir, name, it2, k);
                assert(p1[dir.len() + 1 + h.len() + 1 + k] == n1[k]);
                assert(p2[dir.len() + 1 + h.len() + 1 + k] == n2[k]);
            }
        }
        crate::manifest::dec_val_of_dec_str(it1 as nat);
        crate::manifest::dec_val_of_dec_str(it2 as nat);
        assert(false);
    }
}

proof fn lemma_ap_num_index(dir: Seq<char>, name: Seq<char>, it: u64, k: int)
    requires
        0 <= k < dec_str(it as nat).len(),
    ensures
        archive_path(dir, name, it)[dir.len() + 1 + name_digest(name).len() as int + 1 + k]
            == dec_str(it as nat)[k],
{
    let h = name_digest(name);
    let slash = "/"@;
    let dash = "-"@;
    let num = dec_str(it as nat);
    let ext = crate::globals::ARCHIVE_EXTENSION@;
    let i = h.len() as int + 1 + k;
    reveal_strlit("/");
    reveal_strlit("-");
    assert(slash.len() == 1);
    assert(dash.len() == 1);
    assert((h + dash + num)[i] == num[k]);
    assert((h + dash + num + ext)[i] == (h + dash + num)[i]);
    assert((dir + slash + (h + dash + num + ext))[dir.len() + 1 + i]
        == (h + dash + num + ext)[i]);
    assert(archive_path(dir, name, it) =~= dir + slash + (h + dash + num + ext));
}

proof fn lemma_ap_digest_index(dir: Seq<char>, name: Seq<char>, it: u64, k: int)
    requires
        0 <= k < name_digest(name).len(),
    ensures
        archive_path(dir, name, it)[dir.len() + 1 + k] == name_digest(name)[k],
{
    let h = name_digest(name);
    let slash = "/"@;
    let dash = "-"@;
    let num = dec_str(it as nat);
    let ext = crate::globals::ARCHIVE_EXTENSION@;
    reveal_strlit("/");
    assert(slash.len() == 1);
    assert((h + dash)[k] == h[k]);
    assert((h + dash + num)[k] == (h + dash)[k]);
    assert((h + dash + num + ext)[k] == (h + dash + num)[k]);
    assert((dir + slash + (h + dash + num + ext))[dir.len() + 1 + k]
        == (h + dash + num + ext)[k]);
    assert(archive_path(dir, name, it) =~= dir + slash + (h + dash + num + ext));
}

proof fn lemma_ap_dash_index(dir: Seq<char>, name: Seq<char>, it: u64)
    ensures
        archive_path(dir, name, it)[dir.len() + 1 + name_digest(name).len() as int] == '-',
{
    let h = name_digest(name);
    let slash = "/"@;
    let dash = "-"@;
    let num = dec_str(it as nat);
    let ext = crate::globals::ARCHIVE_EXTENSION@;
    let k = h.len() as int;
    reveal_strlit("/");
    reveal_strlit("-");
    assert(slash.len() == 1);
    assert(dash[0] == '-');
    assert((h + dash)[k] == dash[0]);
    assert((h + dash + num)[k] == (h + dash)[k]);
    assert((h + dash + num + ext)[k] == (h + dash + num)[k]);
    assert((dir + slash + (h + dash + num + ext))[dir.len() + 1 + k]
        == (h + dash + num + ext)[k]);
    assert(archive_path(dir, name, it) =~= dir + slash + (h + dash + num + ext));
}

// ---------------------------------------------------------------------
// Reading manifest records out of stored archives
// ---------------------------------------------------------------------

/// The contents of the first manifest member of an entry sequence, when
/// there is one.
pub open spec fn manifest_member_data(ms: Seq<(Seq<char>, Seq<u8>)>) -> Option<Seq<u8>>
    decreases ms.len(),
{
    if ms.len() == 0 {
        None
    } else if ms[0].0 == crate::globals::MANIFEST_MEMBER@ {
        Some(ms[0].1)
    } else {
        manifest_member_data(ms.drop_first())
    }
}

/// The manifest record denoted by a manifest member's bytes: UTF-8
/// decoded, then parsed as the manifest document.
pub open spec fn parse_manifest_bytes(data: Seq<u8>) -> Option<(Seq<char>, u64)> {
    if vstd::utf8::valid_utf8(data) {
        parse_manifest_chars(vstd::utf8::decode_utf8(data))
    } else {
        None
    }
}

/// The manifest record of an archive's bytes: the record its first
/// manifest member denotes, when the archive has one and it parses.
pub open spec fn template_record_of(bytes: Seq<u8>) -> Option<(Seq<char>, u64)> {
    match manifest_member_data(archive_members(bytes)) {
        None => None,
        Some(d) => parse_manifest_bytes(d),
    }
}

/// `t` is the template record that the stored file `f` denotes.
pub open spec fn is_template_of(t: Template, f: StoredFile) -> bool {
    &&& template_record_of(f.data@) == Some((t.info.name@, t.info.iteration))
    &&& t.filename@ == f.filename@
    &&& t.filesize == f.data@.len()
}

/// The view of a template used to state ordering and permutation:
/// name, iteration, file name and size.
pub open spec fn tview(t: Template) -> (Seq<char>, u64, Seq<char>, u64) {
    (t.info.name@, t.info.iteration, t.filename@, t.filesize)
}

/// The views of a sequence of templates.
pub open spec fn tviews(ts: Seq<Template>) -> Seq<(Seq<char>, u64, Seq<char>, u64)> {
    ts.map_values(|t: Template| tview(t))
}

/// The record views denoted by a sequence of stored files, defined when
/// every file's record parses.
pub open spec fn file_tviews(fs: Seq<StoredFile>) -> Seq<(Seq<char>, u64, Seq<char>, u64)> {
    fs.map_values(
        |f: StoredFile|
            {
                let r = template_record_of(f.data@);
                (r.unwrap().0, r.unwrap().1, f.filename@, f.data@.len() as u64)
            },
    )
}

/// Every file of the store reads back as an archive in full, and its
/// manifest record parses: the store is well formed for scanning.
pub open spec fn store_readable(files: Seq<StoredFile>) -> bool {
    forall|k: int| 0 <= k < files.len() ==> {
        &&& crate::archive::readable_archive((#[trigger] files[k]).data@)
        &&& template_record_of(files[k].data@) is Some
    }
}

/// No two files of the store share a file name.
pub open spec fn store_filenames_unique(files: Seq<StoredFile>) -> bool {
    forall|j: int, k: int| 0 <= j < k < files.len()
        ==> (#[trigger] files[j]).filename@ != (#[trigger] files[k]).filename@
}

/// Some stored file's record carries `name`.
pub open spec fn store_has_name(files: Seq<StoredFile>, name: Seq<char>) -> bool {
    exists|k: int| 0 <= k < files.len() && {
        let r = template_record_of(#[trigger] files[k].data@);
        r is Some && r.unwrap().0 == name
    }
}

/// `it` is the highest iteration stored under `name`.
pub open spec fn is_max_iteration(files: Seq<StoredFile>, name: Seq<char>, it: u64) -> bool {
    &&& exists|k: int| 0 <= k < files.len()
        && template_record_of(#[trigger] files[k].data@) == Some((name, it))
    &&& forall|k: int| 0 <= k < files.len() && {
        let r = template_record_of(#[trigger] files[k].data@);
        r is Some && r.unwrap().0 == name
    } ==> template_record_of(files[k].data@).unwrap().1 <= it
}

impl Template {
    /// Reads the manifest record out of one stored file.
    pub fn read_from_file(file: &StoredFile) -> (r: Result<Template, StoreError>)
        ensures
            match r {
                Ok(t) => is_template_of(t, *file) && crate::archive::parses_archive(
                    file.data@,
                ),
                Err(e) => {
                    &&& (e == StoreError::ArchiveFormatError
                        || e == StoreError::SerializationError)
                    &&& template_record_of(file.data@) is Some ==> e
                        != StoreError::SerializationError
                    &&& e == StoreError::ArchiveFormatError ==> {
                        ||| !crate::archive::readable_archive(file.data@)
                        ||| manifest_member_data(archive_members(file.data@)) is None
                    }
                },
            },
            (crate::archive::readable_archive(file.data@) && template_record_of(
                file.data@,
            ) is Some) ==> r is Ok,
            !crate::archive::parses_archive(file.data@) ==> (r matches Err(e) && e
                == StoreError::ArchiveFormatError),
    {
        let ghost ms = archive_members(file.data@);
        let members = match crate::archive::ZipUtil::unpack(&file.data) {
            Ok(members) => members,
            Err(_) => {
                return Err(StoreError::ArchiveFormatError);
            },
        };
        let mut i: usize = 0;
        let mut found: Option<Vec<u8>> = None;
        proof {
            assert(ms.skip(0) =~= ms);
        }
        while i < members.len() && found.is_none()
            invariant
                0 <= i <= members@.len(),
                ms == archive_members(file.data@),
                crate::archive::members_view(members@) == ms,
                match found {
                    Some(d) => manifest_member_data(ms) == Some(d@),
                    None => manifest_member_data(ms) == manifest_member_data(
                        ms.skip(i as int),
                    ),
                },
            decreases members@.len() - i, (if found is None { 1int } else { 0int }),
        {
            proof {
                assert(ms[i as int] == members@[i as int]@);
                assert(ms.skip(i as int)[0] == ms[i as int]);
                assert(ms.skip(i as int).drop_first() =~= ms.skip(i + 1));
            }
            if str_eq(members[i].path.as_str(), crate::globals::MANIFEST_MEMBER) {
                found = Some(members[i].data.clone());
                proof {
                    assert(manifest_member_data(ms) == Some(members@[i as int].data@));
                }
            } else {
                i = i + 1;
            }
        }
        let data = match found {
            Some(data) => data,
            None => {
                proof {
                    assert(ms.skip(members@.len() as int)
                        =~= Seq::<(Seq<char>, Seq<u8>)>::empty());
                }
                return Err(StoreError::ArchiveFormatError);
            },
        };
        let text = match crate::strutil::utf8_to_string(&data) {
            Some(text) => text,
            None => {
                return Err(StoreError::SerializationError);
            },
        };
        match parse_manifest_str(text.as_str()) {
            Some((name, iteration)) => Ok(Template {
                info: TemplateInfo { name, iteration },
                filename: file.filename.clone(),
                filesize: file.data.len() as u64,
            }),
            None => Err(StoreError::SerializationError),
        }
    }
}

// ---------------------------------------------------------------------
// Ordering templates
// ---------------------------------------------------------------------

/// The registry order on templates: names ascending lexicographically;
/// under one name, iterations descending when `iter_desc` (most recent
/// first), ascending otherwise.
pub open spec fn tmpl_le(a: Template, b: Template, iter_desc: bool) -> bool {
    if a.info.name@ == b.info.name@ {
        if iter_desc {
            a.info.iteration >= b.info.iteration
        } else {
            a.info.iteration <= b.info.iteration
        }
    } else {
        crate::strutil::lex_le(a.info.name@, b.info.name@)
    }
}

/// The sequence is sorted in the registry order.
pub open spec fn templates_sorted(ts: Seq<Template>, iter_desc: bool) -> bool {
    forall|i: int, j: int| 0 <= i < j < ts.len() ==> tmpl_le(ts[i], ts[j], iter_desc)
}

proof fn tmpl_le_total(a: Template, b: Template, iter_desc: bool)
    ensures
        tmpl_le(a, b, iter_desc) || tmpl_le(b, a, iter_desc),
{
    crate::strutil::lex_le_total(a.info.name@, b.info.name@);
}

proof fn tmpl_le_trans(a: Template, b: Template, c: Template, iter_desc: bool)
    requires
        tmpl_le(a, b, iter_desc),
        tmpl_le(b, c, iter_desc),
    ensures
        tmpl_le(a, c, iter_desc),
{
    let an = a.info.name@;
    let bn = b.info.name@;
    let cn = c.info.name@;
    if an != bn && bn != cn {
        if an == cn {
            crate::strutil::lex_le_antisym(an, bn);
        } else {
            crate::strutil::lex_le_trans(an, bn, cn);
        }
    }
}

/// Decides `tmpl_le`.
fn tmpl_le_exec(a: &Template, b: &Template, iter_desc: bool) -> (r: bool)
    ensures
        r == tmpl_le(*a, *b, iter_desc),
{
    if str_eq(a.info.name.as_str(), b.info.name.as_str()) {
        if iter_desc {
            a.info.iteration >= b.info.iteration
        } else {
            a.info.iteration <= b.info.iteration
        }
    } else {
        crate::strutil::str_lex_le(a.info.name.as_str(), b.info.name.as_str())
    }
}

proof fn tviews_remove(s: Seq<Template>, i: int)
    requires
        0 <= i < s.len(),
    ensures
        tviews(s.remove(i)) =~= tviews(s).remove(i),
{
}

proof fn tviews_insert(s: Seq<Template>, i: int, t: Template)
    requires
        0 <= i <= s.len(),
    ensures
        tviews(s.insert(i, t)) =~= tviews(s).insert(i, tview(t)),
{
}

/// Sorts templates in the registry order. The multiset of template
/// views is unchanged: every record appears exactly as often as before.
pub fn sort_templates(v: &mut Vec<Template>, iter_desc: bool)
    ensures
        templates_sorted(final(v)@, iter_desc),
        tviews(final(v)@).to_multiset() == tviews(old(v)@).to_multiset(),
{
    let ghost orig = v@;
    let mut i: usize = 1;
    while i < v.len()
        invariant
            1 <= i,
            i <= v@.len() || v@.len() == 0,
            tviews(v@).to_multiset() == tviews(orig).to_multiset(),
            forall|a: int, b: int| 0 <= a < b < i && b < v@.len()
                ==> tmpl_le(v@[a], v@[b], iter_desc),
        decreases v@.len() - i,
    {
        let mut j: usize = 0;
        while j < i && tmpl_le_exec(&v[j], &v[i], iter_desc)
            invariant
                0 <= j <= i < v@.len(),
                forall|k: int| 0 <= k < j ==> tmpl_le(v@[k], v@[i as int], iter_desc),
            decreases i - j,
        {
            j = j + 1;
        }
        if j < i {
            proof {
                tmpl_le_total(v@[j as int], v@[i as int], iter_desc);
            }
            let ghost before = v@;
            let x = v.remove(i);
            let ghost mid = v@;
            v.insert(j, x);
            proof {
                broadcast use vstd::seq_lib::group_to_multiset_ensures;
                broadcast use vstd::multiset::group_multiset_axioms;

                assert(mid == before.remove(i as int));
                assert(v@ == mid.insert(j as int, x));
                tviews_remove(before, i as int);
                tviews_insert(mid, j as int, x);
                assert(tviews(mid) == tviews(before).remove(i as int));
                assert(tviews(v@) == tviews(mid).insert(j as int, tview(x)));
                assert(tviews(before).remove(i as int).to_multiset()
                    == tviews(before).to_multiset().remove(tviews(before)[i as int]));
                assert(tviews(mid).insert(j as int, tview(x)).to_multiset()
                    == tviews(mid).to_multiset().insert(tview(x)));
                assert(tviews(before)[i as int] == tview(x));
                assert(tviews(before).contains(tview(x))) by {
                    assert(tviews(before)[i as int] == tview(x));
                }
                assert(tviews(before).to_multiset().count(tview(x)) > 0);
                assert(tviews(before).to_multiset().remove(tview(x)).insert(tview(x))
                    =~= tviews(before).to_multiset());
                assert(tviews(v@).to_multiset() == tviews(before).to_multiset());
                assert forall|a: int, b: int| 0 <= a < b < i + 1 && b < v@.len()
                    implies tmpl_le(v@[a], v@[b], iter_desc) by {
                    sorted_insert_tmpl(before, v@, i as int, j as int, a, b, iter_desc);
                }
            }
        }
        i = i + 1;
    }
}

/// Mapping two multiset-equal sequences gives multiset-equal images.
proof fn lemma_map_values_multiset<T, U>(a: Seq<T>, b: Seq<T>, f: spec_fn(T) -> U)
    requires
        a.to_multiset() == b.to_multiset(),
    ensures
        a.map_values(f).to_multiset() == b.map_values(f).to_multiset(),
    decreases a.len(),
{
    broadcast use vstd::seq_lib::group_to_multiset_ensures;
    broadcast use vstd::multiset::group_multiset_axioms;

    if a.len() == 0 {
        assert(a.to_multiset().len() == a.len());
        assert(b.to_multiset().len() == b.len());
        assert(b.len() == 0);
        assert(a.map_values(f) =~= Seq::<U>::empty());
        assert(b.map_values(f) =~= Seq::<U>::empty());
    } else {
        let x = a.last();
        let a0 = a.drop_last();
        assert(a == a0.push(x)) by {
            assert(a =~= a0.push(x));
        }
        assert(a.contains(x)) by {
            assert(a[a.len() - 1] == x);
        }
        assert(a.to_multiset().count(x) > 0);
        assert(b.to_multiset().count(x) > 0);
        assert(b.contains(x));
        let i = choose|i: int| 0 <= i < b.len() && b[i] == x;
        let b0 = b.remove(i);
        assert(a0.to_multiset() =~= b0.to_multiset()) by {
            assert(a0.push(x).to_multiset() == a0.to_multiset().insert(x));
            assert(b.remove(i).to_multiset() == b.to_multiset().remove(b[i]));
            assert(a0.to_multiset() =~= a.to_multiset().remove(x));
        }
        lemma_map_values_multiset(a0, b0, f);
        assert(a.map_values(f) =~= a0.map_values(f).push(f(x)));
        assert(a.map_values(f).to_multiset() == a0.map_values(f).to_multiset().insert(f(x)));
        assert(b0.map_values(f) =~= b.map_values(f).remove(i));
        assert(b.map_values(f).remove(i).to_multiset()
            == b.map_values(f).to_multiset().remove(b.map_values(f)[i]));
        assert(b.map_values(f)[i] == f(x));
        assert(b.map_values(f).contains(f(x))) by {
            assert(b.map_values(f)[i] == f(x));
        }
        assert(b.map_values(f).to_multiset().count(f(x)) > 0);
        assert(b.map_values(f).to_multiset().remove(f(x)).insert(f(x))
            =~= b.map_values(f).to_multiset());
    }
}

/// The registry order on name/iteration pairs.
pub open spec fn pair_le(a: (Seq<char>, u64), b: (Seq<char>, u64), iter_desc: bool) -> bool {
    if a.0 == b.0 {
        if iter_desc {
            a.1 >= b.1
        } else {
            a.1 <= b.1
        }
    } else {
        crate::strutil::lex_le(a.0, b.0)
    }
}

/// The name/iteration pairs of a sequence of templates.
pub open spec fn info_views(ts: Seq<Template>) -> Seq<(Seq<char>, u64)> {
    ts.map_values(|t: Template| (t.info.name@, t.info.iteration))
}

/// The registry listing is unique: two sequences that are both sorted
/// in the registry order and whose record views agree as a multiset
/// carry the identical name/iteration pairs, in the identical order.
pub proof fn lemma_sorted_info_views_unique(a: Seq<Template>, b: Seq<Template>, iter_desc: bool)
    requires
        templates_sorted(a, iter_desc),
        templates_sorted(b, iter_desc),
        tviews(a).to_multiset() == tviews(b).to_multiset(),
    ensures
        info_views(a) == info_views(b),
{
    let leq = |x: (Seq<char>, u64), y: (Seq<char>, u64)| pair_le(x, y, iter_desc);
    assert(vstd::relations::total_ordering(leq)) by {
        assert forall|x: (Seq<char>, u64)| #[trigger] leq(x, x) by {
            crate::strutil::lex_le_refl(x.0);
        }
        assert forall|x: (Seq<char>, u64), y: (Seq<char>, u64)|
            #[trigger] leq(x, y) && #[trigger] leq(y, x) implies x == y by {
            if x.0 != y.0 {
                crate::strutil::lex_le_antisym(x.0, y.0);
            }
        }
        assert forall|x: (Seq<char>, u64), y: (Seq<char>, u64), z: (Seq<char>, u64)|
            #[trigger] leq(x, y) && #[trigger] leq(y, z) implies leq(x, z) by {
            if x.0 != y.0 && y.0 != z.0 {
                if x.0 == z.0 {
                    crate::strutil::lex_le_antisym(x.0, y.0);
                } else {
                    crate::strutil::lex_le_trans(x.0, y.0, z.0);
                }
            }
        }
        assert forall|x: (Seq<char>, u64), y: (Seq<char>, u64)|
            #[trigger] leq(x, y) || #[trigger] leq(y, x) by {
            crate::strutil::lex_le_total(x.0, y.0);
        }
    }
    assert(vstd::relations::sorted_by(info_views(a), leq)) by {
        assert forall|i: int, j: int| 0 <= i < j < info_views(a).len() implies #[trigger] leq(
            info_views(a)[i],
            info_views(a)[j],
        ) by {
            assert(tmpl_le(a[i], a[j], iter_desc));
        }
    }
    assert(vstd::relations::sorted_by(info_views(b), leq)) by {
        assert forall|i: int, j: int| 0 <= i < j < info_views(b).len() implies #[trigger] leq(
            info_views(b)[i],
            info_views(b)[j],
        ) by {
            assert(tmpl_le(b[i], b[j], iter_desc));
        }
    }
    let proj = |v: (Seq<char>, u64, Seq<char>, u64)| (v.0, v.1);
    lemma_map_values_multiset(tviews(a), tviews(b), proj);
    assert(tviews(a).map_values(proj) =~= info_views(a));
    assert(tviews(b).map_values(proj) =~= info_views(b));
    vstd::seq_lib::lemma_sorted_unique(info_views(a), info_views(b), leq);
    assert(info_views(a) =~= info_views(b));
}

proof fn sorted_insert_tmpl(
    before: Seq<Template>,
    after: Seq<Template>,
    i: int,
    j: int,
    a: int,
    b: int,
    iter_desc: bool,
)
    requires
        0 <= j < i < before.len(),
        after == before.remove(i).insert(j, before[i]),
        forall|p: int, q: int| 0 <= p < q < i ==> tmpl_le(before[p], before[q], iter_desc),
        forall|k: int| 0 <= k < j ==> tmpl_le(before[k], before[i], iter_desc),
        tmpl_le(before[i], before[j], iter_desc),
        0 <= a < b < i + 1,
        b < after.len(),
    ensures
        tmpl_le(after[a], after[b], iter_desc),
{
    let x = before[i];
    assert(after.len() == before.len());
    assert forall|k: int| 0 <= k < i + 1 implies after[k] == tmpl_at(before, i, j, k) by {
        reveal_tmpl_at(before, i, j, k);
    }
    if a == j && b > j && b - 1 > j {
        tmpl_le_trans(x, before[j], before[b - 1], iter_desc);
    }
}

spec fn tmpl_at(before: Seq<Template>, i: int, j: int, k: int) -> Template {
    if k < j {
        before[k]
    } else if k == j {
        before[i]
    } else {
        before[k - 1]
    }
}

proof fn reveal_tmpl_at(before: Seq<Template>, i: int, j: int, k: int)
    requires
        0 <= j < i < before.len(),
        0 <= k < i + 1,
    ensures
        before.remove(i).insert(j, before[i])[k] == tmpl_at(before, i, j, k),
{
}

// ---------------------------------------------------------------------
// The registry
// ---------------------------------------------------------------------

impl crate::archive::ZipUtil {
    /// Reads the manifest record of every stored file, in order. A file
    /// whose record cannot be read fails the whole scan.
    pub fn get_templates(files: &Vec<StoredFile>) -> (r: Result<Vec<Template>, StoreError>)
        ensures
            match r {
                Ok(ts) => {
                    &&& ts@.len() == files@.len()
                    &&& forall|k: int| 0 <= k < files@.len()
                        ==> is_template_of(ts@[k], files@[k])
                },
                Err(e) => e == StoreError::ArchiveFormatError
                    || e == StoreError::SerializationError,
            },
            store_readable(files@) ==> r is Ok,
            (exists|k: int| 0 <= k < files@.len() && !crate::archive::parses_archive(
                (#[trigger] files@[k]).data@,
            )) ==> r is Err,
    {
        let mut out: Vec<Template> = Vec::new();
        let mut i: usize = 0;
        while i < files.len()
            invariant
                0 <= i <= files@.len(),
                out@.len() == i,
                forall|k: int| 0 <= k < i ==> is_template_of(out@[k], files@[k]),
                forall|k: int| 0 <= k < i ==> crate::archive::parses_archive(
                    (#[trigger] files@[k]).data@,
                ),
            decreases files@.len() - i,
        {
            match Template::read_from_file(&files[i]) {
                Ok(t) => {
                    out.push(t);
                },
                Err(e) => {
                    return Err(e);
                },
            }
            i = i + 1;
        }
        Ok(out)
    }
}

impl Template {
    /// Every record parsed, ordered by name ascending and iteration
    /// descending within a name; each stored file's record appears
    /// exactly once. Succeeds on every readable store.
    pub fn get_existing(files: &Vec<StoredFile>) -> (r: Result<Vec<Template>, StoreError>)
        ensures
            match r {
                Ok(ts) => {
                    &&& templates_sorted(ts@, true)
                    &&& tviews(ts@).to_multiset() == file_tviews(files@).to_multiset()
                    &&& forall|k: int| 0 <= k < files@.len()
                        ==> template_record_of(#[trigger] files@[k].data@) is Some
                },
                Err(e) => e == StoreError::ArchiveFormatError
                    || e == StoreError::SerializationError,
            },
            store_readable(files@) ==> r is Ok,
            (exists|k: int| 0 <= k < files@.len() && !crate::archive::parses_archive(
                (#[trigger] files@[k]).data@,
            )) ==> r is Err,
    {
        let mut ts = match crate::archive::ZipUtil::get_templates(files) {
            Ok(ts) => ts,
            Err(e) => {
                return Err(e);
            },
        };
        proof {
            assert(tviews(ts@) =~= file_tviews(files@));
        }
        sort_templates(&mut ts, true);
        Ok(ts)
    }

    /// The highest-iteration template under `name`, or `None` when no
    /// stored file's record carries that name.
    pub fn get_existing_by_name(files: &Vec<StoredFile>, name: &str) -> (r: Result<
        Option<Template>,
        StoreError,
    >)
        ensures
            match r {
                Ok(found) => {
                    &&& match found {
                        Some(t) => {
                            &&& t.info.name@ == name@
                            &&& exists|k: int| 0 <= k < files@.len()
                                && is_template_of(t, #[trigger] files@[k])
                            &&& forall|k: int| 0 <= k < files@.len()
                                && (#[trigger] template_record_of(
                                    files@[k].data@,
                                )).unwrap().0 == name@
                                ==> template_record_of(files@[k].data@).unwrap().1
                                    <= t.info.iteration
                        },
                        None => forall|k: int| 0 <= k < files@.len()
                            ==> (#[trigger] template_record_of(
                                files@[k].data@,
                            )).unwrap().0 != name@,
                    }
                    &&& forall|k: int| 0 <= k < files@.len()
                        ==> template_record_of(#[trigger] files@[k].data@) is Some
                },
                Err(e) => e == StoreError::ArchiveFormatError
                    || e == StoreError::SerializationError,
            },
            store_readable(files@) ==> r is Ok,
            (exists|k: int| 0 <= k < files@.len() && !crate::archive::parses_archive(
                (#[trigger] files@[k]).data@,
            )) ==> r is Err,
    {
        let ts = match crate::archive::ZipUtil::get_templates(files) {
            Ok(ts) => ts,
            Err(e) => {
                return Err(e);
            },
        };
        let mut best: Option<Template> = None;
        let mut i: usize = 0;
        while i < ts.len()
            invariant
                0 <= i <= ts@.len(),
                ts@.len() == files@.len(),
                forall|k: int| 0 <= k < files@.len()
                    ==> is_template_of(ts@[k], files@[k]),
                match best {
                    Some(t) => {
                        &&& t.info.name@ == name@
                        &&& exists|k: int| 0 <= k < files@.len()
                            && is_template_of(t, #[trigger] files@[k])
                        &&& forall|k: int| 0 <= k < i
                            && (#[trigger] template_record_of(
                                files@[k].data@,
                            )).unwrap().0 == name@
                            ==> template_record_of(files@[k].data@).unwrap().1
                                <= t.info.iteration
                    },
                    None => forall|k: int| 0 <= k < i
                        ==> (#[trigger] template_record_of(
                            files@[k].data@,
                        )).unwrap().0 != name@,
                },
            decreases ts@.len() - i,
        {
            if str_eq(ts[i].info.name.as_str(), name) {
                let better = match &best {
                    None => true,
                    Some(t) => ts[i].info.iteration > t.info.iteration,
                };
                if better {
                    best = Some(Template {
                        info: TemplateInfo {
                            name: ts[i].info.name.clone(),
                            iteration: ts[i].info.iteration,
                        },
                        filename: ts[i].filename.clone(),
                        filesize: ts[i].filesize,
                    });
                    proof {
                        assert(is_template_of(best.unwrap(), files@[i as int]));
                    }
                }
            }
            i = i + 1;
        }
        Ok(best)
    }

    /// The template stored under exactly `(name, iteration)`, or `None`.
    pub fn get_existing_by_name_and_iteration(
        files: &Vec<StoredFile>,
        name: &str,
        iteration: Iteration,
    ) -> (r: Result<Option<Template>, StoreError>)
        ensures
            match r {
                Ok(found) => {
                    &&& match found {
                        Some(t) => {
                            &&& t.info.name@ == name@
                            &&& t.info.iteration == iteration
                            &&& exists|k: int| 0 <= k < files@.len()
                                && is_template_of(t, #[trigger] files@[k])
                        },
                        None => forall|k: int| 0 <= k < files@.len()
                            ==> (#[trigger] template_record_of(files@[k].data@))
                                != Some((name@, iteration)),
                    }
                    &&& forall|k: int| 0 <= k < files@.len()
                        ==> template_record_of(#[trigger] files@[k].data@) is Some
                },
                Err(e) => e == StoreError::ArchiveFormatError
                    || e == StoreError::SerializationError,
            },
            store_readable(files@) ==> r is Ok,
            (exists|k: int| 0 <= k < files@.len() && !crate::archive::parses_archive(
                (#[trigger] files@[k]).data@,
            )) ==> r is Err,
    {
        let ts = match crate::archive::ZipUtil::get_templates(files) {
            Ok(ts) => ts,
            Err(e) => {
                return Err(e);
            },
        };
        proof {
            assert forall|k: int| 0 <= k < files@.len() implies crate::archive::parses_archive(
                (#[trigger] files@[k]).data@,
            ) by {
                if !crate::archive::parses_archive(files@[k].data@) {
                }
            }
        }
        let mut i: usize = 0;
        while i < ts.len()
            invariant
                0 <= i <= ts@.len(),
                ts@.len() == files@.len(),
                forall|k: int| 0 <= k < files@.len() ==> crate::archive::parses_archive(
                    (#[trigger] files@[k]).data@,
                ),
                forall|k: int| 0 <= k < files@.len()
                    ==> is_template_of(ts@[k], files@[k]),
                forall|k: int| 0 <= k < i
                    ==> (#[trigger] template_record_of(files@[k].data@))
                        != Some((name@, iteration)),
            decreases ts@.len() - i,
        {
            if str_eq(ts[i].info.name.as_str(), name) && ts[i].info.iteration == iteration {
                let t = Template {
                    info: TemplateInfo {
                        name: ts[i].info.name.clone(),
                        iteration: ts[i].info.iteration,
                    },
                    filename: ts[i].filename.clone(),
                    filesize: ts[i].filesize,
                };
                proof {
                    assert(is_template_of(t, files@[i as int]));
                }
                return Ok(Some(t));
            }
            i = i + 1;
        }
        Ok(None)
    }
}

// ---------------------------------------------------------------------
// Deletion planning
// ---------------------------------------------------------------------

/// The file names of the stored files whose record carries `name`, in
/// order.
pub open spec fn files_matching_name(fs: Seq<StoredFile>, name: Seq<char>) -> Seq<Seq<char>>
    decreases fs.len(),
{
    if fs.len() == 0 {
        Seq::empty()
    } else {
        let rest = files_matching_name(fs.drop_last(), name);
        let r = template_record_of(fs.last().data@);
        if r is Some && r.unwrap().0 == name {
            rest.push(fs.last().filename@)
        } else {
            rest
        }
    }
}

/// The file names of the stored files whose record is exactly
/// `(name, iteration)`, in order.
pub open spec fn files_matching_name_and_iteration(
    fs: Seq<StoredFile>,
    name: Seq<char>,
    iteration: u64,
) -> Seq<Seq<char>>
    decreases fs.len(),
{
    if fs.len() == 0 {
        Seq::empty()
    } else {
        let rest = files_matching_name_and_iteration(fs.drop_last(), name, iteration);
        if template_record_of(fs.last().data@) == Some((name, iteration)) {
            rest.push(fs.last().filename@)
        } else {
            rest
        }
    }
}

proof fn files_matching_name_snoc(fs: Seq<StoredFile>, f: StoredFile, name: Seq<char>)
    ensures
        files_matching_name(fs.push(f), name) == {
            let r = template_record_of(f.data@);
            if r is Some && r.unwrap().0 == name {
                files_matching_name(fs, name).push(f.filename@)
            } else {
                files_matching_name(fs, name)
            }
        },
{
    assert(fs.push(f).drop_last() =~= fs);
    assert(fs.push(f).last() == f);
}

proof fn files_matching_name_and_iteration_snoc(
    fs: Seq<StoredFile>,
    f: StoredFile,
    name: Seq<char>,
    iteration: u64,
)
    ensures
        files_matching_name_and_iteration(fs.push(f), name, iteration)
            == if template_record_of(f.data@) == Some((name, iteration)) {
            files_matching_name_and_iteration(fs, name, iteration).push(f.filename@)
        } else {
            files_matching_name_and_iteration(fs, name, iteration)
        },
{
    assert(fs.push(f).drop_last() =~= fs);
    assert(fs.push(f).last() == f);
}

impl Template {
    /// Plans the deletion of every iteration stored under `name`: yields
    /// whether anything matched, and the files to remove. Finding
    /// nothing is not an error.
    pub fn delete_by_name(files: &Vec<StoredFile>, name: &str) -> (r: Result<
        (bool, Vec<String>),
        StoreError,
    >)
        ensures
            match r {
                Ok((found, del)) => {
                    &&& crate::strutil::string_views(del@) == files_matching_name(
                        files@,
                        name@,
                    )
                    &&& found == (files_matching_name(files@, name@).len() > 0)
                },
                Err(e) => e == StoreError::ArchiveFormatError
                    || e == StoreError::SerializationError,
            },
            store_readable(files@) ==> r is Ok,
            (exists|k: int| 0 <= k < files@.len() && !crate::archive::parses_archive(
                (#[trigger] files@[k]).data@,
            )) ==> r is Err,
    {
        let ts = match crate::archive::ZipUtil::get_templates(files) {
            Ok(ts) => ts,
            Err(e) => {
                return Err(e);
            },
        };
        let mut del: Vec<String> = Vec::new();
        let mut i: usize = 0;
        proof {
            assert(files@.take(0) =~= Seq::<StoredFile>::empty());
            assert(crate::strutil::string_views(del@)
                =~= files_matching_name(files@.take(0), name@));
        }
        while i < ts.len()
            invariant
                0 <= i <= ts@.len(),
                ts@.len() == files@.len(),
                forall|k: int| 0 <= k < files@.len()
                    ==> is_template_of(ts@[k], files@[k]),
                crate::strutil::string_views(del@) == files_matching_name(
                    files@.take(i as int),
                    name@,
                ),
            decreases ts@.len() - i,
        {
            proof {
                files_matching_name_snoc(files@.take(i as int), files@[i as int], name@);
                assert(files@.take(i + 1) =~= files@.take(i as int).push(files@[i as int]));
            }
            if str_eq(ts[i].info.name.as_str(), name) {
                let f = ts[i].filename.clone();
                proof {
                    assert(crate::strutil::string_views(del@.push(f))
                        =~= crate::strutil::string_views(del@).push(f@));
                }
                del.push(f);
            }
            i = i + 1;
        }
        proof {
            assert(files@.take(files@.len() as int) =~= files@);
        }
        let found = del.len() > 0;
        Ok((found, del))
    }

    /// Plans the deletion of the single archive stored under
    /// `(name, iteration)`. Finding nothing yields `found == false`,
    /// never an error of its own.
    pub fn delete_by_name_and_iteration(
        files: &Vec<StoredFile>,
        name: &str,
        iteration: Iteration,
    ) -> (r: Result<(bool, Vec<String>), StoreError>)
        ensures
            match r {
                Ok((found, del)) => {
                    &&& crate::strutil::string_views(del@)
                        == files_matching_name_and_iteration(files@, name@, iteration)
                    &&& found == (files_matching_name_and_iteration(
                        files@,
                        name@,
                        iteration,
                    ).len() > 0)
                },
                Err(e) => e == StoreError::ArchiveFormatError
                    || e == StoreError::SerializationError,
            },
            store_readable(files@) ==> r is Ok,
            (exists|k: int| 0 <= k < files@.len() && !crate::archive::parses_archive(
                (#[trigger] files@[k]).data@,
            )) ==> r is Err,
    {
        let ts = match crate::archive::ZipUtil::get_templates(files) {
            Ok(ts) => ts,
            Err(e) => {
                return Err(e);
            },
        };
        let mut del: Vec<String> = Vec::new();
        let mut i: usize = 0;
        proof {
            assert(files@.take(0) =~= Seq::<StoredFile>::empty());
            assert(crate::strutil::string_views(del@)
                =~= files_matching_name_and_iteration(files@.take(0), name@, iteration));
        }
        while i < ts.len()
            invariant
                0 <= i <= ts@.len(),
                ts@.len() == files@.len(),
                forall|k: int| 0 <= k < files@.len()
                    ==> is_template_of(ts@[k], files@[k]),
                crate::strutil::string_views(del@) == files_matching_name_and_iteration(
                    files@.take(i as int),
                    name@,
                    iteration,
                ),
            decreases ts@.len() - i,
        {
            proof {
                files_matching_name_and_iteration_snoc(
                    files@.take(i as int),
                    files@[i as int],
                    name@,
                    iteration,
                );
                assert(files@.take(i + 1) =~= files@.take(i as int).push(files@[i as int]));
            }
            if str_eq(ts[i].info.name.as_str(), name) && ts[i].info.iteration == iteration {
                let f = ts[i].filename.clone();
                proof {
                    assert(crate::strutil::string_views(del@.push(f))
                        =~= crate::strutil::string_views(del@).push(f@));
                }
                del.push(f);
            }
            i = i + 1;
        }
        proof {
            assert(files@.take(files@.len() as int) =~= files@);
        }
        let found = del.len() > 0;
        Ok((found, del))
    }
}

// ---------------------------------------------------------------------
// Writing archives: save and ingest
// ---------------------------------------------------------------------

/// The manifest member embedded in every archive written for
/// `(name, iteration)`: the reserved member name and the UTF-8 encoded
/// manifest document.
pub open spec fn manifest_entry(name: Seq<char>, iteration: u64) -> (Seq<char>, Seq<u8>) {
    (
        crate::globals::MANIFEST_MEMBER@,
        vstd::utf8::encode_utf8(manifest_json(name, iteration)),
    )
}

/// The entries of the archive that `save` writes for `(name, iteration)`
/// over the directory entries `es`: the manifest member first, then
/// every directory entry, directory markers stored without contents.
pub open spec fn save_entries(name: Seq<char>, iteration: u64, es: Seq<(Seq<char>, Seq<u8>)>) -> Seq<
    (Seq<char>, Seq<u8>),
> {
    crate::archive::stored_entries(seq![manifest_entry(name, iteration)] + es)
}

/// The number of entries named as the reserved manifest member.
pub open spec fn manifest_member_count(ms: Seq<(Seq<char>, Seq<u8>)>) -> int
    decreases ms.len(),
{
    if ms.len() == 0 {
        0
    } else {
        manifest_member_count(ms.drop_last()) + if ms.last().0
            == crate::globals::MANIFEST_MEMBER@ {
            1int
        } else {
            0int
        }
    }
}

/// A saved archive holds exactly one manifest member — the record for
/// `(name, iteration)`, standing first — provided no tree entry itself
/// uses the reserved name.
pub proof fn lemma_save_manifest_exactly_once(
    name: Seq<char>,
    iteration: u64,
    es: Seq<(Seq<char>, Seq<u8>)>,
)
    requires
        forall|k: int| 0 <= k < es.len()
            ==> (#[trigger] es[k]).0 != crate::globals::MANIFEST_MEMBER@,
    ensures
        save_entries(name, iteration, es).len() == 1 + es.len(),
        save_entries(name, iteration, es)[0] == manifest_entry(name, iteration),
        manifest_member_count(save_entries(name, iteration, es)) == 1,
{
    let m = manifest_entry(name, iteration);
    let sv = save_entries(name, iteration, es);
    reveal_strlit(".foldr-manifest");
    assert(crate::globals::MANIFEST_MEMBER@.len() == 15);
    assert(crate::globals::MANIFEST_MEMBER@[14] != '/');
    assert(crate::archive::stored_entry(m) == m);
    assert(sv[0] == crate::archive::stored_entry((seq![m] + es)[0]));
    assert((seq![m] + es)[0] == m);
    assert forall|k: int| 1 <= k < sv.len() implies (#[trigger] sv[k]).0
        != crate::globals::MANIFEST_MEMBER@ by {
        assert(sv[k] == crate::archive::stored_entry((seq![m] + es)[k]));
        assert((seq![m] + es)[k] == es[k - 1]);
        assert(crate::archive::stored_entry(es[k - 1]).0 == es[k - 1].0);
    }
    lemma_count_single_manifest(sv);
}

proof fn lemma_count_single_manifest(ms: Seq<(Seq<char>, Seq<u8>)>)
    requires
        ms.len() >= 1,
        ms[0].0 == crate::globals::MANIFEST_MEMBER@,
        forall|k: int| 1 <= k < ms.len() ==> (#[trigger] ms[k]).0
            != crate::globals::MANIFEST_MEMBER@,
    ensures
        manifest_member_count(ms) == 1,
    decreases ms.len(),
{
    if ms.len() == 1 {
        assert(ms.last() == ms[0]);
        assert(ms.drop_last() =~= Seq::<(Seq<char>, Seq<u8>)>::empty());
        assert(manifest_member_count(ms.drop_last()) == 0);
        assert(ms.last().0 == crate::globals::MANIFEST_MEMBER@);
        assert(manifest_member_count(ms) == manifest_member_count(ms.drop_last()) + 1);
    } else {
        assert(ms.last() == ms[ms.len() - 1]);
        assert(ms.drop_last()[0] == ms[0]);
        assert forall|k: int| 1 <= k < ms.drop_last().len() implies
            (#[trigger] ms.drop_last()[k]).0 != crate::globals::MANIFEST_MEMBER@ by {
            assert(ms.drop_last()[k] == ms[k]);
        }
        lemma_count_single_manifest(ms.drop_last());
    }
}

/// The entries an ingested stream contributes to its new archive: the
/// stream's entries in order, without the bare "/" entry and without
/// the excluded paths.
pub open spec fn ingest_entries(ms: Seq<(Seq<char>, Seq<u8>)>, remove: Seq<Seq<char>>) -> Seq<
    (Seq<char>, Seq<u8>),
>
    decreases ms.len(),
{
    if ms.len() == 0 {
        Seq::empty()
    } else {
        let rest = ingest_entries(ms.drop_last(), remove);
        let e = ms.last();
        if e.0 == "/"@ || remove.contains(e.0) {
            rest
        } else {
            rest.push(e)
        }
    }
}

proof fn ingest_entries_snoc(
    ms: Seq<(Seq<char>, Seq<u8>)>,
    e: (Seq<char>, Seq<u8>),
    remove: Seq<Seq<char>>,
)
    ensures
        ingest_entries(ms.push(e), remove) == if e.0 == "/"@ || remove.contains(e.0) {
            ingest_entries(ms, remove)
        } else {
            ingest_entries(ms, remove).push(e)
        },
{
    assert(ms.push(e).drop_last() =~= ms);
    assert(ms.push(e).last() == e);
}

/// Builds the manifest member for `(name, iteration)`.
fn build_manifest_member(name: &str, iteration: Iteration) -> (m: Member)
    ensures
        m@ == manifest_entry(name@, iteration),
{
    let text = crate::manifest::encode_manifest_str(name, iteration);
    let data = text.as_str().as_bytes_vec();
    Member { path: (crate::globals::MANIFEST_MEMBER).to_owned(), data }
}

impl Template {
    /// Builds the archive for a snapshot taken from a directory tree:
    /// its members are exactly the manifest for `(name, iteration)`
    /// followed by the tree's entries, and it reads back in full.
    /// Succeeds whenever the container accepts every entry. Yields the
    /// template record — its file name is the archive's location — and
    /// the archive bytes; the caller writes them there.
    pub fn save(
        config: &Config,
        entries: &Vec<Member>,
        name: &str,
        iteration: Iteration,
    ) -> (r: Result<(Template, Vec<u8>), StoreError>)
        ensures
            match r {
                Ok((t, bytes)) => {
                    &&& archive_members(bytes@) == save_entries(
                        name@,
                        iteration,
                        crate::archive::members_view(entries@),
                    )
                    &&& crate::archive::readable_archive(bytes@)
                    &&& t.info.name@ == name@
                    &&& t.info.iteration == iteration
                    &&& t.filename@ == archive_path(config.template_dir@, name@, iteration)
                    &&& t.filesize == bytes@.len()
                },
                Err(e) => e == StoreError::IOError,
            },
            (crate::archive::writes_accepted(
                save_entries(name@, iteration, crate::archive::members_view(entries@)),
            ) && crate::archive::finish_accepts(
                save_entries(name@, iteration, crate::archive::members_view(entries@)),
            )) ==> r is Ok,
    {
        let manifest = build_manifest_member(name, iteration);
        let mut extra: Vec<Member> = Vec::new();
        extra.push(manifest);
        proof {
            assert(crate::archive::members_view(extra@)
                =~= seq![manifest_entry(name@, iteration)]);
        }
        let bytes = match crate::archive::ZipUtil::zip_dir(&extra, entries) {
            Ok(bytes) => bytes,
            Err(e) => {
                return Err(e);
            },
        };
        let info = TemplateInfo::new(name.to_owned(), iteration);
        let filename = info.generate_output_path(config);
        let filesize = bytes.len() as u64;
        Ok((Template { info, filename, filesize }, bytes))
    }

    /// Rebuilds an externally supplied archive stream under a fresh
    /// manifest for `(name, iteration)`: every entry whose path is safe
    /// is copied unchanged, except the bare "/" entry and the paths in
    /// `remove_from_output`; the fresh manifest member comes last. An
    /// entry whose path would escape the destination root fails the
    /// whole operation with `SecurityError`, and no archive is
    /// produced.
    pub fn store(
        config: &Config,
        name: &str,
        iteration: Iteration,
        stream: &Vec<u8>,
        remove_from_output: &Vec<String>,
    ) -> (r: Result<(Template, Vec<u8>), StoreError>)
        ensures
            match r {
                Ok((t, bytes)) => {
                    &&& crate::archive::all_entries_safe(archive_members(stream@))
                    &&& crate::archive::readable_archive(bytes@)
                    &&& archive_members(bytes@) == crate::archive::stored_entries(
                        ingest_entries(
                            archive_members(stream@),
                            crate::strutil::string_views(remove_from_output@),
                        ) + seq![manifest_entry(name@, iteration)],
                    )
                    &&& t.info.name@ == name@
                    &&& t.info.iteration == iteration
                    &&& t.filename@ == archive_path(config.template_dir@, name@, iteration)
                    &&& t.filesize == bytes@.len()
                },
                Err(e) => {
                    &&& (e == StoreError::ArchiveFormatError || e == StoreError::SecurityError
                        || e == StoreError::IOError)
                    &&& e == StoreError::SecurityError ==> !crate::archive::all_entries_safe(
                        archive_members(stream@),
                    )
                    &&& e == StoreError::IOError ==> crate::archive::all_entries_safe(
                        archive_members(stream@),
                    )
                    &&& e == StoreError::ArchiveFormatError ==> !crate::archive::readable_archive(
                        stream@,
                    )
                },
            },
            !crate::archive::parses_archive(stream@) ==> (r matches Err(e) && e
                == StoreError::ArchiveFormatError),
            !crate::archive::all_entries_safe(archive_members(stream@)) ==> (r matches Err(e)
                && (e == StoreError::SecurityError || e == StoreError::ArchiveFormatError)),
            ({
                &&& crate::archive::readable_archive(stream@)
                &&& crate::archive::all_entries_safe(archive_members(stream@))
                &&& crate::archive::writes_accepted(
                    crate::archive::stored_entries(
                        ingest_entries(
                            archive_members(stream@),
                            crate::strutil::string_views(remove_from_output@),
                        ) + seq![manifest_entry(name@, iteration)],
                    ),
                )
                &&& crate::archive::finish_accepts(
                    crate::archive::stored_entries(
                        ingest_entries(
                            archive_members(stream@),
                            crate::strutil::string_views(remove_from_output@),
                        ) + seq![manifest_entry(name@, iteration)],
                    ),
                )
            }) ==> r is Ok,
    {
        let ghost ms = archive_members(stream@);
        let ghost removeview = crate::strutil::string_views(remove_from_output@);
        let members = match crate::archive::ZipUtil::unpack(stream) {
            Ok(members) => members,
            Err(_) => {
                return Err(StoreError::ArchiveFormatError);
            },
        };
        let mut kept: Vec<Member> = Vec::new();
        proof {
            assert(ms.take(0) =~= Seq::<(Seq<char>, Seq<u8>)>::empty());
            assert(crate::archive::members_view(kept@)
                =~= ingest_entries(ms.take(0), removeview));
        }
        let mut i: usize = 0;
        while i < members.len()
            invariant
                0 <= i <= members@.len(),
                ms == archive_members(stream@),
                crate::archive::parses_archive(stream@),
                crate::archive::members_view(members@) == ms,
                removeview == crate::strutil::string_views(remove_from_output@),
                crate::archive::members_view(kept@) == ingest_entries(
                    ms.take(i as int),
                    removeview,
                ),
                forall|k: int| 0 <= k < i ==> crate::archive::entry_safe(ms[k]),
            decreases members@.len() - i,
        {
            proof {
                assert(ms[i as int] == members@[i as int]@);
                ingest_entries_snoc(ms.take(i as int), ms[i as int], removeview);
                assert(ms.take(i + 1) =~= ms.take(i as int).push(ms[i as int]));
            }
            let m = &members[i];
            if str_eq(m.path.as_str(), "/") {
                i = i + 1;
                continue;
            }
            if !crate::paths::check_safe_path(m.path.as_str()) {
                proof {
                    assert(!crate::archive::entry_safe(ms[i as int]));
                    assert(!crate::archive::all_entries_safe(ms));
                }
                return Err(StoreError::SecurityError);
            }
            if crate::strutil::vec_contains_str(remove_from_output, m.path.as_str()) {
                i = i + 1;
                continue;
            }
            let copied = Member { path: m.path.clone(), data: m.data.clone() };
            proof {
                assert(copied@ == ms[i as int]);
                assert(crate::archive::members_view(kept@.push(copied))
                    =~= crate::archive::members_view(kept@).push(copied@));
            }
            kept.push(copied);
            i = i + 1;
        }
        proof {
            assert(ms.take(members@.len() as int) =~= ms);
        }
        let manifest = build_manifest_member(name, iteration);
        let mut tail: Vec<Member> = Vec::new();
        tail.push(manifest);
        proof {
            assert(crate::archive::members_view(tail@)
                =~= seq![manifest_entry(name@, iteration)]);
        }
        let bytes = match crate::archive::ZipUtil::zip_dir(&kept, &tail) {
            Ok(bytes) => bytes,
            Err(e) => {
                proof {
                    assert(crate::archive::members_view(kept@)
                        + crate::archive::members_view(tail@)
                        =~= ingest_entries(ms, removeview)
                        + seq![manifest_entry(name@, iteration)]);
                }
                return Err(e);
            },
        };
        let info = TemplateInfo::new(name.to_owned(), iteration);
        let filename = info.generate_output_path(config);
        let filesize = bytes.len() as u64;
        Ok((Template { info, filename, filesize }, bytes))
    }
}

/// Extraction inverts saving: spawning the archive that `save` writes
/// for `(name, iteration)` over the entries `es` yields exactly `es`
/// back (directory markers stored without contents), with no manifest
/// member among them — provided no entry of `es` itself uses the
/// reserved manifest name.
pub proof fn lemma_spawn_save_roundtrip(
    name: Seq<char>,
    iteration: u64,
    es: Seq<(Seq<char>, Seq<u8>)>,
)
    requires
        forall|k: int| 0 <= k < es.len()
            ==> (#[trigger] es[k]).0 != crate::globals::MANIFEST_MEMBER@,
    ensures
        crate::archive::spawn_entries(
            save_entries(name, iteration, es),
            seq![crate::globals::MANIFEST_MEMBER@],
        ) == crate::archive::stored_entries(es),
    decreases es.len(),
{
    let m = manifest_entry(name, iteration);
    let hidden = seq![crate::globals::MANIFEST_MEMBER@];
    let whole = crate::archive::stored_entries(seq![m] + es);
    if es.len() == 0 {
        assert(seq![m] + es =~= seq![m]);
        assert(whole.len() == 1);
        assert(whole[0] == crate::archive::stored_entry(m));
        assert(crate::archive::stored_entry(m).0 == crate::globals::MANIFEST_MEMBER@);
        assert(hidden[0] == crate::globals::MANIFEST_MEMBER@);
        assert(whole.last() == whole[0]);
        assert(hidden.contains(whole.last().0));
        assert(whole.drop_last() =~= Seq::<(Seq<char>, Seq<u8>)>::empty());
        assert(crate::archive::spawn_entries(whole, hidden)
            == crate::archive::spawn_entries(whole.drop_last(), hidden));
        assert(crate::archive::spawn_entries(whole.drop_last(), hidden)
            =~= Seq::<(Seq<char>, Seq<u8>)>::empty());
        assert(crate::archive::stored_entries(es).len() == 0);
        assert(crate::archive::spawn_entries(whole, hidden)
            =~= crate::archive::stored_entries(es));
    } else {
        let es0 = es.drop_last();
        let e = es.last();
        lemma_spawn_save_roundtrip(name, iteration, es0);
        let prev = crate::archive::stored_entries(seq![m] + es0);
        assert(whole.drop_last() =~= prev) by {
            assert((seq![m] + es).drop_last() =~= seq![m] + es0);
        }
        assert(whole.last() == crate::archive::stored_entry(e)) by {
            assert((seq![m] + es).last() == e);
        }
        assert(crate::archive::stored_entry(e).0 == e.0);
        assert(e.0 != crate::globals::MANIFEST_MEMBER@) by {
            assert(es[es.len() - 1].0 != crate::globals::MANIFEST_MEMBER@);
        }
        assert(!hidden.contains(crate::archive::stored_entry(e).0)) by {
            assert(forall|k: int| 0 <= k < hidden.len() ==> hidden[k]
                == crate::globals::MANIFEST_MEMBER@);
        }
        assert(crate::archive::spawn_entries(whole, hidden)
            == crate::archive::spawn_entries(prev, hidden).push(
                crate::archive::stored_entry(e),
            ));
        assert(crate::archive::stored_entries(es)
            =~= crate::archive::stored_entries(es0).push(crate::archive::stored_entry(e)));
    }
}

// ---------------------------------------------------------------------
// Extraction and content listing
// ---------------------------------------------------------------------

/// The lexicographic order as a relation value.
pub open spec fn lex_leq_fn() -> spec_fn(Seq<char>, Seq<char>) -> bool {
    |a: Seq<char>, b: Seq<char>| crate::strutil::lex_le(a, b)
}

/// The lexicographic order is a total order.
pub proof fn lex_leq_total_ordering()
    ensures
        vstd::relations::total_ordering(lex_leq_fn()),
{
    let leq = lex_leq_fn();
    assert forall|x: Seq<char>| #[trigger] leq(x, x) by {
        crate::strutil::lex_le_refl(x);
    }
    assert forall|x: Seq<char>, y: Seq<char>| #[trigger] leq(x, y) && #[trigger] leq(y, x)
        implies x == y by {
        crate::strutil::lex_le_antisym(x, y);
    }
    assert forall|x: Seq<char>, y: Seq<char>, z: Seq<char>|
        #[trigger] leq(x, y) && #[trigger] leq(y, z) implies leq(x, z) by {
        crate::strutil::lex_le_trans(x, y, z);
    }
    assert forall|x: Seq<char>, y: Seq<char>| #[trigger] leq(x, y) || #[trigger] leq(y, x) by {
        crate::strutil::lex_le_total(x, y);
    }
}

/// The paths of an archive's contents, manifest excluded, each with a
/// trailing directory separator removed.
pub open spec fn content_paths(ms: Seq<(Seq<char>, Seq<u8>)>) -> Seq<Seq<char>> {
    crate::archive::visible_paths(ms, seq![crate::globals::MANIFEST_MEMBER@]).map_values(
        |p: Seq<char>| crate::paths::strip_trailing_slash_spec(p),
    )
}

/// The content paths in lexicographic order: what the hierarchy is
/// built over.
pub open spec fn content_paths_sorted(ms: Seq<(Seq<char>, Seq<u8>)>) -> Seq<Seq<char>> {
    content_paths(ms).sort_by(lex_leq_fn())
}

impl Template {
    /// The entries extraction writes for a stored archive: every member
    /// except the manifest, in order. The caller writes each under the
    /// destination directory, creating parent directories as needed.
    pub fn spawn(data: &Vec<u8>) -> (r: Result<Vec<Member>, StoreError>)
        ensures
            match r {
                Ok(out) => crate::archive::members_view(out@) == crate::archive::spawn_entries(
                    archive_members(data@),
                    seq![crate::globals::MANIFEST_MEMBER@],
                ),
                Err(e) => e == StoreError::ArchiveFormatError
                    && !crate::archive::readable_archive(data@),
            },
            crate::archive::readable_archive(data@) ==> r is Ok,
            !crate::archive::parses_archive(data@) ==> r is Err,
    {
        let mut hidden: Vec<String> = Vec::new();
        hidden.push((crate::globals::MANIFEST_MEMBER).to_owned());
        proof {
            assert(crate::strutil::string_views(hidden@)
                =~= seq![crate::globals::MANIFEST_MEMBER@]);
        }
        crate::archive::ZipUtil::unzip(data, &hidden)
    }

    /// Builds the display hierarchy of a stored archive's contents:
    /// a root named after the template, over the archive's paths in
    /// lexicographic order, manifest excluded.
    pub fn get_content_hierarchy(&self, data: &Vec<u8>) -> (r: Result<
        TemplateHierarchy,
        StoreError,
    >)
        ensures
            match r {
                Ok(h) => {
                    &&& h.path@ == self.info.name@
                    &&& forest_matches(
                        h.children@,
                        content_paths_sorted(archive_members(data@)),
                        0,
                        content_paths_sorted(archive_members(data@)).len() as int,
                        Seq::empty(),
                    )
                },
                Err(e) => {
                    &&& {
                        ||| e == StoreError::ArchiveFormatError
                        ||| (e == StoreError::SecurityError && !crate::archive::all_entries_safe(
                            archive_members(data@),
                        ))
                    }
                    &&& e == StoreError::ArchiveFormatError ==> !crate::archive::readable_archive(
                        data@,
                    )
                },
            },
            (crate::archive::readable_archive(data@) && crate::archive::all_entries_safe(
                archive_members(data@),
            )) ==> r is Ok,
            !crate::archive::parses_archive(data@) ==> (r matches Err(e) && e
                == StoreError::ArchiveFormatError),
    {
        let ghost ms = archive_members(data@);
        let ghost target = content_paths(ms);
        let mut hidden: Vec<String> = Vec::new();
        hidden.push((crate::globals::MANIFEST_MEMBER).to_owned());
        proof {
            assert(crate::strutil::string_views(hidden@)
                =~= seq![crate::globals::MANIFEST_MEMBER@]);
        }
        let names = match crate::archive::ZipUtil::get_files(data, &hidden) {
            Ok(names) => names,
            Err(e) => {
                return Err(e);
            },
        };
        let mut stripped: Vec<String> = Vec::new();
        proof {
            assert(crate::strutil::string_views(stripped@) =~= target.take(0));
        }
        let mut i: usize = 0;
        while i < names.len()
            invariant
                0 <= i <= names@.len(),
                target == content_paths(ms),
                crate::strutil::string_views(names@) == crate::archive::visible_paths(
                    ms,
                    seq![crate::globals::MANIFEST_MEMBER@],
                ),
                crate::strutil::string_views(stripped@) == target.take(i as int),
            decreases names@.len() - i,
        {
            let s = crate::paths::strip_trailing_slash(names[i].as_str()).to_owned();
            proof {
                assert(target[i as int] == crate::paths::strip_trailing_slash_spec(
                    crate::strutil::string_views(names@)[i as int],
                ));
                assert(s@ == target[i as int]);
                assert(crate::strutil::string_views(stripped@.push(s))
                    =~= crate::strutil::string_views(stripped@).push(s@));
                assert(target.take(i + 1) =~= target.take(i as int).push(target[i as int]));
            }
            stripped.push(s);
            i = i + 1;
        }
        proof {
            assert(target.take(names@.len() as int) =~= target);
        }
        crate::paths::sort_strings(&mut stripped);
        proof {
            lex_leq_total_ordering();
            let leq = lex_leq_fn();
            let sv = crate::strutil::string_views(stripped@);
            assert(vstd::relations::sorted_by(sv, leq)) by {
                assert forall|a: int, b: int| 0 <= a < b < sv.len() implies #[trigger] leq(
                    sv[a],
                    sv[b],
                ) by {
                    assert(crate::strutil::lex_le(stripped@[a]@, stripped@[b]@));
                }
            }
            target.lemma_sort_by_ensures(leq);
            vstd::seq_lib::lemma_sorted_unique(sv, target.sort_by(leq), leq);
            assert(sv =~= content_paths_sorted(ms));
        }
        let root = TemplateHierarchy::from_paths(self.info.name.clone(), &stripped);
        Ok(root)
    }
}

// ---------------------------------------------------------------------
// The display hierarchy
// ---------------------------------------------------------------------

/// The inner contents of an archive as a file hierarchy: a path segment
/// and the ordered children below it. A node without children renders
/// as a file, one with children as a directory.
pub struct TemplateHierarchy {
    pub path: String,
    pub children: Vec<TemplateHierarchy>,
}

/// The first index in `[i, hi)` whose path is not at or below the
/// directory `cur` (or `hi`).
pub open spec fn run_end(paths: Seq<Seq<char>>, i: int, hi: int, cur: Seq<char>) -> int
    decreases hi - i,
    when 0 <= i
{
    if i < hi && i < paths.len() && crate::paths::path_starts_with(paths[i], cur) {
        run_end(paths, i + 1, hi, cur)
    } else {
        i
    }
}

/// The first index at or after `i` holding '/', or the end of `p`.
pub open spec fn next_slash(p: Seq<char>, i: int) -> int
    decreases p.len() - i,
    when 0 <= i
{
    if i >= p.len() {
        p.len() as int
    } else if p[i] == '/' {
        i
    } else {
        next_slash(p, i + 1)
    }
}

/// The end of the path prefix of `p` that extends the directory
/// `parent` by exactly one component.
pub open spec fn child_prefix_end(p: Seq<char>, parent: Seq<char>) -> int {
    let start = if parent.len() == 0 {
        0int
    } else {
        parent.len() as int + 1
    };
    vstd::math::max(start, vstd::math::min(next_slash(p, start), p.len() as int))
}

/// The path prefix of `p` that names `parent`'s direct subdirectory (or
/// file) that `p` lies under.
pub open spec fn child_prefix(p: Seq<char>, parent: Seq<char>) -> Seq<char> {
    p.take(child_prefix_end(p, parent))
}

/// The forest `ts` is exactly the hierarchy that one left-to-right pass
/// over the sorted paths `paths[lo..hi)` builds under the directory
/// `parent`: the first path that lies properly below `parent` opens a
/// node for its next component; the contiguous run of paths below that
/// component becomes the node's subtree (the path naming the component
/// itself, when present, is consumed as the node's own entry); paths
/// not below `parent` are passed over.
pub open spec fn forest_matches(
    ts: Seq<TemplateHierarchy>,
    paths: Seq<Seq<char>>,
    lo: int,
    hi: int,
    parent: Seq<char>,
) -> bool
    decreases hi - lo,
        vstd::math::max(0, paths[lo].len() - parent.len()),
    when lo <= hi
{
    if lo >= hi {
        ts.len() == 0
    } else if !crate::paths::path_starts_with(paths[lo], parent)
        || paths[lo].len() <= parent.len()
        || child_prefix_end(paths[lo], parent) <= parent.len() {
        forest_matches(ts, paths, lo + 1, hi, parent)
    } else {
        let cur = child_prefix(paths[lo], parent);
        let j = vstd::math::max(
            lo + 1,
            vstd::math::min(run_end(paths, lo + 1, hi, cur), hi),
        );
        &&& ts.len() > 0
        &&& ts[0].path@ == cur
        &&& if paths[lo].len() == cur.len() {
            forest_matches(ts[0].children@, paths, lo + 1, j, cur)
        } else {
            forest_matches(ts[0].children@, paths, lo, j, cur)
        }
        &&& forest_matches(ts.drop_first(), paths, j, hi, parent)
    }
}

impl TemplateHierarchy {
    pub fn new(path: String, children: Vec<TemplateHierarchy>) -> (r: Self)
        ensures
            r.path@ == path@,
            r.children@ == children@,
    {
        Self { path, children }
    }

    /// Builds the display hierarchy from a lexicographically sorted
    /// list of paths: a root named after the template, whose children
    /// partition the paths as `forest_matches` describes.
    pub fn from_paths(template_name: String, paths: &Vec<String>) -> (r: TemplateHierarchy)
        ensures
            r.path@ == template_name@,
            forest_matches(
                r.children@,
                crate::strutil::string_views(paths@),
                0,
                paths@.len() as int,
                Seq::empty(),
            ),
    {
        let len = paths.len();
        let children = Self::build_subtree(paths, 0, len, "");
        proof {
            reveal_strlit("");
            assert(""@ =~= Seq::<char>::empty());
        }
        TemplateHierarchy { path: template_name, children }
    }

    /// Builds the forest for `paths[lo..hi)` under `parent`.
    fn build_subtree(paths: &Vec<String>, lo: usize, hi: usize, parent: &str) -> (r: Vec<
        TemplateHierarchy,
    >)
        requires
            lo <= hi <= paths@.len(),
        ensures
            forest_matches(
                r@,
                crate::strutil::string_views(paths@),
                lo as int,
                hi as int,
                parent@,
            ),
        decreases hi - lo,
            vstd::math::max(
                0,
                crate::strutil::string_views(paths@)[lo as int].len() - parent@.len(),
            ),
    {
        let ghost pv = crate::strutil::string_views(paths@);
        if lo >= hi {
            let r: Vec<TemplateHierarchy> = Vec::new();
            return r;
        }
        proof {
            assert(pv[lo as int] == paths@[lo as int]@);
        }
        let plen = paths[lo].as_str().unicode_len();
        let parlen = parent.unicode_len();
        let below = crate::paths::check_path_starts_with(paths[lo].as_str(), parent);
        if !below || plen <= parlen {
            return Self::build_subtree(paths, lo + 1, hi, parent);
        }
        let start = if parlen == 0 {
            0
        } else {
            parlen + 1
        };
        let e = next_slash_exec(paths[lo].as_str(), start);
        proof {
            assert(child_prefix_end(pv[lo as int], parent@) == e);
        }
        if e <= parlen {
            return Self::build_subtree(paths, lo + 1, hi, parent);
        }
        let cur_slice = paths[lo].as_str().substring_char(0, e);
        let cur = cur_slice.to_owned();
        proof {
            assert(cur@ =~= child_prefix(pv[lo as int], parent@));
        }
        let mut j = lo + 1;
        while j < hi && crate::paths::check_path_starts_with(
            paths[j].as_str(),
            cur.as_str(),
        )
            invariant
                lo + 1 <= j <= hi,
                hi <= paths@.len(),
                pv == crate::strutil::string_views(paths@),
                cur@ == child_prefix(pv[lo as int], parent@),
                run_end(pv, lo + 1, hi as int, cur@) == run_end(
                    pv,
                    j as int,
                    hi as int,
                    cur@,
                ),
            decreases hi - j,
        {
            j = j + 1;
        }
        proof {
            assert(run_end(pv, j as int, hi as int, cur@) == j);
        }
        let children = if e == plen {
            Self::build_subtree(paths, lo + 1, j, cur.as_str())
        } else {
            proof {
                assert(cur@.len() == e);
                assert(pv[lo as int].len() == plen);
                assert(cur@.len() > parent@.len());
            }
            Self::build_subtree(paths, lo, j, cur.as_str())
        };
        let node = TemplateHierarchy { path: cur, children };
        let mut rest = Self::build_subtree(paths, j, hi, parent);
        let ghost restview = rest@;
        let mut result: Vec<TemplateHierarchy> = Vec::new();
        result.push(node);
        result.append(&mut rest);
        proof {
            assert(result@[0] == node);
            assert(result@.drop_first() =~= restview);
        }
        result
    }
}

/// Finds the first '/' at or after `i`, or the end of the string.
fn next_slash_exec(s: &str, i: usize) -> (r: usize)
    requires
        i <= s@.len(),
    ensures
        r as int == next_slash(s@, i as int),
        i <= r <= s@.len(),
{
    let len = s.unicode_len();
    let mut k = i;
    while k < len && s.get_char(k) != '/'
        invariant
            i <= k <= len,
            len == s@.len(),
            next_slash(s@, i as int) == next_slash(s@, k as int),
        decreases len - k,
    {
        k = k + 1;
    }
    proof {
        assert(next_slash(s@, k as int) == k);
    }
    k
}

} // verus!
