//! Which rendered page images go into the archive, in which order, and
//! under which names.

use vstd::prelude::*;
use crate::archive::{
    ArchiveBuilder, Compression, archive_entries, archive_failure, archive_method, entry_names,
    stored_with, within_plain_limits, zip_read_entries,
};
use crate::error::{AppError, Failure, answers};
use crate::text::{
    decimal, decimal_text, decimal_value, ends_with, is_prefix_of, is_suffix_of, join2, join3,
    lemma_decimal_injective, lemma_decimal_len_usize, lemma_decimal_reads_back, lemma_lex_order,
    lex_less, starts_with, text_less,
};

verus! {

/// The texts of a list of strings.
pub open spec fn texts(v: Seq<String>) -> Seq<Seq<char>> {
    v.map_values(|s: String| s@)
}

/// Whether the file `name` is a page image of request `id` in format `ext`,
/// that is, it is named `<id>-*.<ext>`: the id and a dash, then anything, then
/// a dot and the extension.
pub open spec fn is_page_of(name: Seq<char>, id: Seq<char>, ext: Seq<char>) -> bool {
    &&& is_prefix_of(id.push('-'), name)
    &&& is_suffix_of(seq!['.'] + ext, name)
    &&& name.len() >= id.len() + ext.len() + 2
}

/// The file `<id>-<middle>.<ext>`, as pdftoppm names a page of the prefix `id`.
pub open spec fn page_file_name(id: Seq<char>, middle: Seq<char>, ext: Seq<char>) -> Seq<char> {
    id.push('-') + middle + seq!['.'] + ext
}

/// Whether `name` has the form `<id>-<middle>.<ext>` for some middle.
pub open spec fn has_page_file_form(name: Seq<char>, id: Seq<char>, ext: Seq<char>) -> bool {
    exists|middle: Seq<char>| name == page_file_name(id, middle, ext)
}

/// Every name made of the id, a dash, any middle (of any length, empty
/// too), a dot and the extension is a page of that request and format.
pub proof fn lemma_page_file_name_is_page(id: Seq<char>, middle: Seq<char>, ext: Seq<char>)
    ensures
        is_page_of(page_file_name(id, middle, ext), id, ext),
{
    let n = page_file_name(id, middle, ext);
    assert(n.subrange(0, id.len() + 1int) =~= id.push('-'));
    assert(n.subrange(n.len() - (ext.len() + 1), n.len() as int) =~= seq!['.'] + ext);
}

/// A page of a request and format is named by the id, a dash, its middle,
/// a dot and the extension.
pub proof fn lemma_page_is_page_file_name(name: Seq<char>, id: Seq<char>, ext: Seq<char>)
    requires
        is_page_of(name, id, ext),
    ensures
        name == page_file_name(id, name.subrange(id.len() + 1int, name.len() - ext.len() - 1), ext),
{
    let middle = name.subrange(id.len() + 1int, name.len() - ext.len() - 1);
    let m = page_file_name(id, middle, ext);
    assert(name.subrange(0, id.len() + 1int) == id.push('-'));
    assert(name.subrange(name.len() - (ext.len() + 1), name.len() as int) == seq!['.'] + ext);
    assert forall|i: int| 0 <= i < name.len() implies name[i] == #[trigger] m[i] by {
        if i < id.len() + 1 {
            assert(name[i] == name.subrange(0, id.len() + 1int)[i]);
        } else if i < name.len() - ext.len() - 1 {
        } else {
            assert(name[i] == name.subrange(name.len() - (ext.len() + 1), name.len() as int)[i
                - (name.len() - (ext.len() + 1))]);
        }
    }
    assert(name =~= m);
}

/// A name is a page of request `id` in format `ext` exactly when it has the
/// form `<id>-<middle>.<ext>`, whatever the middle.
pub proof fn lemma_page_names_are_exactly_page_files(name: Seq<char>, id: Seq<char>, ext: Seq<char>)
    ensures
        is_page_of(name, id, ext) <==> has_page_file_form(name, id, ext),
{
    if is_page_of(name, id, ext) {
        lemma_page_is_page_file_name(name, id, ext);
    }
    if has_page_file_form(name, id, ext) {
        let middle = choose|middle: Seq<char>| name == page_file_name(id, middle, ext);
        lemma_page_file_name_is_page(id, middle, ext);
    }
}

/// Whether `name` has the form `<id>-*.<ext>`.
fn is_page_name(name: &str, id_dash: &str, dot_ext: &str) -> (r: bool)
    ensures
        r == (is_prefix_of(id_dash@, name@) && is_suffix_of(dot_ext@, name@) && name@.len()
            >= id_dash@.len() + dot_ext@.len()),
{
    if !starts_with(name, id_dash) || !ends_with(name, dot_ext) {
        return false;
    }
    let n = name.unicode_len();
    let a = id_dash.unicode_len();
    let b = dot_ext.unicode_len();
    a <= n && b <= n - a
}

/// The page images among `names`, in their original order.
pub open spec fn page_files(names: Seq<Seq<char>>, id: Seq<char>, ext: Seq<char>) -> Seq<
    Seq<char>,
> {
    names.filter(|n: Seq<char>| is_page_of(n, id, ext))
}

/// In ascending lexicographic order.
pub open spec fn is_sorted(s: Seq<Seq<char>>) -> bool {
    forall|i: int, j: int| 0 <= i < j < s.len() ==> !lex_less(#[trigger] s[j], #[trigger] s[i])
}

/// Where `x` goes in the sorted sequence `s`: before the first element greater than it.
fn insertion_point(s: &Vec<String>, x: &String) -> (k: usize)
    requires
        is_sorted(texts(s@)),
    ensures
        k <= s.len(),
        forall|m: int| 0 <= m < k ==> !lex_less(x@, #[trigger] s@[m]@),
        forall|m: int| k <= m < s.len() ==> lex_less(x@, #[trigger] s@[m]@),
{
    let mut k: usize = 0;
    while k < s.len()
        invariant
            k <= s.len(),
            is_sorted(texts(s@)),
            forall|m: int| 0 <= m < k ==> !lex_less(x@, #[trigger] s@[m]@),
        decreases s.len() - k,
    {
        if text_less(x.as_str(), s[k].as_str()) {
            assert forall|m: int| k <= m < s.len() implies lex_less(x@, #[trigger] s@[m]@) by {
                if m > k {
                    assert(texts(s@)[k as int] == s@[k as int]@);
                    assert(texts(s@)[m] == s@[m]@);
                    lemma_lex_order(x@, s@[k as int]@, s@[m]@);
                    lemma_lex_order(s@[k as int]@, s@[m]@, x@);
                }
            }
            return k;
        }
        k = k + 1;
    }
    k
}

/// Sorts names in ascending lexicographic order (the order of `Path`s that
/// share a directory).
pub fn sort_names(names: Vec<String>) -> (r: Vec<String>)
    ensures
        is_sorted(texts(r@)),
        texts(r@).to_multiset() =~= texts(names@).to_multiset(),
{
    let mut out: Vec<String> = Vec::new();
    let mut i: usize = 0;
    let n = names.len();
    assert(texts(out@) =~= texts(names@.subrange(0, 0)));
    while i < n
        invariant
            n == names.len(),
            i <= n,
            is_sorted(texts(out@)),
            texts(out@).to_multiset() =~= texts(names@.subrange(0, i as int)).to_multiset(),
        decreases n - i,
    {
        let x = names[i].clone();
        let k = insertion_point(&out, &x);
        let ghost before = out@;
        out.insert(k, x);
        proof {
            broadcast use vstd::seq_lib::group_to_multiset_ensures;

            assert(out@ =~= before.insert(k as int, x));
            assert forall|a: int, b: int| 0 <= a < b < out@.len() implies !lex_less(
                #[trigger] texts(out@)[b],
                #[trigger] texts(out@)[a],
            ) by {
                lemma_lex_order(x@, x@, x@);
                if a < k && b < k {
                    assert(texts(before)[a] == texts(out@)[a]);
                    assert(texts(before)[b] == texts(out@)[b]);
                } else if a < k && b == k {
                    assert(texts(out@)[a] == before[a]@);
                    lemma_lex_order(before[a]@, x@, x@);
                } else if a < k && b > k {
                    assert(texts(before)[a] == texts(out@)[a]);
                    assert(texts(before)[b - 1] == texts(out@)[b]);
                } else if a == k {
                    assert(texts(out@)[b] == before[b - 1]@);
                    lemma_lex_order(x@, before[b - 1]@, x@);
                } else {
                    assert(texts(before)[a - 1] == texts(out@)[a]);
                    assert(texts(before)[b - 1] == texts(out@)[b]);
                }
            }
            let t = texts(out@);
            assert(texts(before) =~= t.remove(k as int));
            assert(t[k as int] == x@);
            assert(t.remove(k as int).to_multiset() =~= t.to_multiset().remove(x@));
            assert(names@.subrange(0, i + 1) =~= names@.subrange(0, i as int).push(names@[i as int]));
            assert(texts(names@.subrange(0, i + 1)) =~= texts(names@.subrange(0, i as int)).push(x@));
            assert(t.to_multiset().count(x@) > 0);
        }
        i = i + 1;
    }
    assert(names@.subrange(0, n as int) =~= names@);
    out
}

/// Keeps the page images of request `id` in format `ext`, in their original order.
pub fn page_names(names: &Vec<String>, id: &str, ext: &str) -> (r: Vec<String>)
    ensures
        texts(r@) =~= page_files(texts(names@), id@, ext@),
        forall|middle: Seq<char>|
            texts(names@).contains(#[trigger] page_file_name(id@, middle, ext@)) ==> texts(
                r@,
            ).contains(page_file_name(id@, middle, ext@)),
        forall|k: int|
            0 <= k < r@.len() ==> texts(names@).contains(#[trigger] texts(r@)[k])
                && has_page_file_form(texts(r@)[k], id@, ext@),
{
    let suffix = join2(".", ext);
    let id_dash = join2(id, "-");
    proof {
        reveal_strlit(".");
        reveal_strlit("-");
        assert(id_dash@ =~= id@.push('-'));
    }
    let mut out: Vec<String> = Vec::new();
    let mut i: usize = 0;
    let n = names.len();
    while i < n
        invariant
            n == names.len(),
            i <= n,
            suffix@ == seq!['.'] + ext@,
            id_dash@ == id@.push('-'),
            texts(out@) =~= page_files(texts(names@.subrange(0, i as int)), id@, ext@),
        decreases n - i,
    {
        let name = &names[i];
        let keep = is_page_name(name.as_str(), id_dash.as_str(), suffix.as_str());
        proof {
            let ghost f = |s: Seq<char>| is_page_of(s, id@, ext@);
            assert(texts(names@.subrange(0, i + 1)) =~= texts(names@.subrange(0, i as int)).push(
                name@,
            ));
            texts(names@.subrange(0, i as int)).lemma_filter_push(name@, f);
        }
        if keep {
            out.push(name.clone());
            assert(texts(out@) =~= texts(out@).drop_last().push(name@));
        }
        i = i + 1;
    }
    assert(names@.subrange(0, n as int) =~= names@);
    proof {
        let kept = page_files(texts(names@), id@, ext@);
        lemma_page_files_members(texts(names@), id@, ext@);
        assert forall|k: int| 0 <= k < out@.len() implies texts(names@).contains(
            #[trigger] texts(out@)[k],
        ) && has_page_file_form(texts(out@)[k], id@, ext@) by {
            assert(texts(out@)[k] == kept[k]);
        }
    }
    out
}

/// What the page filter keeps of `names`: every name of the form
/// `<id>-<middle>.<ext>`, and only such names.
proof fn lemma_page_files_members(names: Seq<Seq<char>>, id: Seq<char>, ext: Seq<char>)
    ensures
        forall|middle: Seq<char>|
            names.contains(#[trigger] page_file_name(id, middle, ext)) ==> page_files(
                names,
                id,
                ext,
            ).contains(page_file_name(id, middle, ext)),
        forall|k: int|
            0 <= k < page_files(names, id, ext).len() ==> names.contains(
                #[trigger] page_files(names, id, ext)[k],
            ) && has_page_file_form(page_files(names, id, ext)[k], id, ext),
{
    let f = |n: Seq<char>| is_page_of(n, id, ext);
    let kept = page_files(names, id, ext);
    assert forall|middle: Seq<char>| names.contains(#[trigger] page_file_name(id, middle, ext)) implies kept.contains(
        page_file_name(id, middle, ext),
    ) by {
        let n = page_file_name(id, middle, ext);
        let i = choose|i: int| 0 <= i < names.len() && names[i] == n;
        lemma_page_file_name_is_page(id, middle, ext);
        names.lemma_filter_contains(f, i);
    }
    assert forall|k: int| 0 <= k < kept.len() implies names.contains(#[trigger] kept[k])
        && has_page_file_form(kept[k], id, ext) by {
        names.lemma_filter_pred(f, k);
        assert(kept.contains(kept[k]));
        names.lemma_filter_contains_rev(f, kept[k]);
        lemma_page_is_page_file_name(kept[k], id, ext);
    }
}

/// The page images of request `id` in format `ext`, sorted by name; it is an
/// error when there is none.
pub fn select_pages(names: &Vec<String>, id: &str, ext: &str) -> (r: Result<Vec<String>, AppError>)
    ensures
        match r {
            Ok(pages) => {
                &&& pages.len() > 0
                &&& is_sorted(texts(pages@))
                &&& texts(pages@).to_multiset() =~= page_files(
                    texts(names@),
                    id@,
                    ext@,
                ).to_multiset()
                &&& forall|middle: Seq<char>|
                    texts(names@).contains(#[trigger] page_file_name(id@, middle, ext@)) ==> texts(
                        pages@,
                    ).contains(page_file_name(id@, middle, ext@))
                &&& forall|k: int|
                    0 <= k < pages@.len() ==> texts(names@).contains(#[trigger] texts(pages@)[k])
                        && has_page_file_form(texts(pages@)[k], id@, ext@)
            },
            Err(e) => {
                &&& page_files(texts(names@), id@, ext@).len() == 0
                &&& forall|middle: Seq<char>|
                    !texts(names@).contains(#[trigger] page_file_name(id@, middle, ext@))
                &&& answers(e, Failure::NoPages)
            },
        },
{
    let found = page_names(names, id, ext);
    if found.len() == 0 {
        assert forall|middle: Seq<char>| !texts(names@).contains(
            #[trigger] page_file_name(id@, middle, ext@),
        ) by {
            if texts(names@).contains(page_file_name(id@, middle, ext@)) {
                assert(texts(found@).contains(page_file_name(id@, middle, ext@)));
            }
        }
        return Err(Failure::NoPages.into_app_error());
    }
    let sorted = sort_names(found);
    proof {
        broadcast use vstd::seq_lib::group_to_multiset_ensures;

        assert(texts(sorted@).len() == texts(sorted@).to_multiset().len());
        assert forall|x: Seq<char>| texts(sorted@).contains(x) <==> texts(found@).contains(x) by {
            assert(texts(sorted@).to_multiset().count(x) == texts(found@).to_multiset().count(x));
        }
        assert forall|k: int| 0 <= k < sorted@.len() implies texts(names@).contains(
            #[trigger] texts(sorted@)[k],
        ) && has_page_file_form(texts(sorted@)[k], id@, ext@) by {
            let x = texts(sorted@)[k];
            assert(texts(sorted@).contains(x));
            let j = choose|j: int| 0 <= j < texts(found@).len() && texts(found@)[j] == x;
            assert(texts(found@)[j] == x);
        }
    }
    Ok(sorted)
}

/// Name of the `i`-th page (counting from 0) inside the archive: `page-{i+1}.{ext}`.
pub open spec fn page_entry(i: nat, ext: Seq<char>) -> Seq<char> {
    "page-"@ + decimal(i + 1) + "."@ + ext
}

/// The page at position `i` (counting from 0) is named `page-<n>.<ext>`,
/// where `<n>` is `i + 1` in decimal digits without a leading zero: pages
/// are numbered from one.
pub proof fn lemma_pages_numbered_from_one(i: nat, ext: Seq<char>)
    ensures
        ({
            let e = page_entry(i, ext);
            let number = e.subrange(5, e.len() - ext.len() - 1);
            &&& e.len() >= ext.len() + 7
            &&& e.subrange(0, 5) == "page-"@
            &&& e.subrange(e.len() - ext.len() - 1, e.len() as int) == seq!['.'] + ext
            &&& decimal_value(number) == i + 1
            &&& forall|k: int| 0 <= k < number.len() ==> '0' <= #[trigger] number[k] <= '9'
            &&& number[0] != '0'
        }),
{
    reveal_strlit("page-");
    reveal_strlit(".");
    let d = decimal(i + 1);
    lemma_decimal_reads_back(i + 1);
    let e = page_entry(i, ext);
    assert(e.len() == 5 + d.len() + 1 + ext.len());
    assert(d.len() >= 1) by {
        if d.len() == 0 {
            assert(decimal_value(d) == 0);
        }
    }
    assert(e.subrange(5, e.len() - ext.len() - 1) =~= d);
    assert(e.subrange(0, 5) =~= "page-"@);
    assert(e.subrange(e.len() - ext.len() - 1, e.len() as int) =~= seq!['.'] + ext);
}

/// The archive entry name of the page at position `i` (counting from 0).
pub fn page_entry_name(i: usize, ext: &str) -> (r: String)
    requires
        i < usize::MAX,
    ensures
        r@ == page_entry(i as nat, ext@),
{
    let number = decimal_text(i + 1);
    let head = join3("page-", number.as_str(), ".");
    join2(head.as_str(), ext)
}

/// The entries of a page archive holding `pages`: the `i`-th is named
/// `page-{i+1}.{ext}` and holds the `i`-th page's bytes.
pub open spec fn page_entries(pages: Seq<Seq<u8>>, ext: Seq<char>) -> Seq<(Seq<char>, Seq<u8>)> {
    Seq::new(pages.len(), |i: int| (page_entry(i as nat, ext), pages[i]))
}

/// Different positions give different page names.
pub proof fn lemma_page_entry_injective(i: nat, j: nat, ext: Seq<char>)
    requires
        page_entry(i, ext) == page_entry(j, ext),
    ensures
        i == j,
{
    reveal_strlit("page-");
    reveal_strlit(".");
    let a = decimal(i + 1);
    let b = decimal(j + 1);
    let x = page_entry(i, ext);
    assert(x.len() == 5 + a.len() + 1 + ext.len());
    assert(x.subrange(5, 5 + a.len() as int) =~= a);
    assert(page_entry(j, ext).subrange(5, 5 + b.len() as int) =~= b);
    lemma_decimal_injective(i + 1, j + 1);
}

/// The archive of a PDF's page images, filled one page at a time as the
/// server reads the rendered files; `pages` records the pages added so far.
pub struct PageArchive {
    pub zip: ArchiveBuilder,
    pub ext: String,
    pub count: usize,
    pub pages: Ghost<Seq<Seq<u8>>>,
}

impl PageArchive {
    /// The archive holds exactly the pages added so far, in order, each named
    /// after its position, and stores them deflated.
    pub open spec fn wf(&self) -> bool {
        &&& archive_entries(self.zip) == page_entries(self.pages@, self.ext@)
        &&& archive_method(self.zip) == Compression::Deflated
        &&& self.count == self.pages@.len()
    }

    /// An empty, deflated archive for pages in format `ext`.
    pub fn new(ext: String) -> (r: Self)
        ensures
            r.wf(),
            r.ext == ext,
            r.pages@ == Seq::<Seq<u8>>::empty(),
    {
        let r = PageArchive {
            zip: ArchiveBuilder::new(Compression::Deflated),
            ext,
            count: 0,
            pages: Ghost(Seq::empty()),
        };
        assert(page_entries(r.pages@, r.ext@) =~= Seq::<(Seq<char>, Seq<u8>)>::empty());
        r
    }

    /// Adds the next page, named after its position. It succeeds as long as
    /// the archive stays within the plain limits.
    pub fn add_page(&mut self, content: &[u8]) -> (r: Result<(), AppError>)
        requires
            old(self).wf(),
            old(self).count < usize::MAX - 1,
            old(self).ext@.len() <= 16000,
        ensures
            final(self).ext == old(self).ext,
            r is Ok ==> final(self).wf() && final(self).pages@ == old(self).pages@.push(content@),
            within_plain_limits(page_entries(old(self).pages@.push(content@), old(self).ext@))
                ==> r is Ok,
            r matches Err(e) ==> archive_failure(e),
    {
        let name = page_entry_name(self.count, self.ext.as_str());
        let ghost before = self.pages@;
        let ghost ext = self.ext@;
        proof {
            reveal_strlit("page-");
            reveal_strlit(".");
            lemma_decimal_len_usize((self.count + 1) as usize);
            assert(page_entries(before.push(content@), ext) =~= page_entries(before, ext).push(
                (page_entry(before.len(), ext), content@),
            ));
            if entry_names(self.zip).contains(name@) {
                let k = choose|k: int|
                    0 <= k < entry_names(self.zip).len() && entry_names(self.zip)[k] == name@;
                assert(entry_names(self.zip)[k] == page_entry(k as nat, ext));
                lemma_page_entry_injective(k as nat, before.len(), ext);
                assert(false);
            }
        }
        self.zip.add_entry(name.as_str(), content)?;
        self.count = self.count + 1;
        self.pages = Ghost(before.push(content@));
        Ok(())
    }

    /// The archive's bytes, from which the entries written read back in order
    /// with the archive's method; for a well-formed archive these are the pages
    /// added, the `i`-th named `page-{i+1}.{ext}`, deflated. A well-formed
    /// archive within the plain limits is always finished.
    pub fn finish(self) -> (r: Result<Vec<u8>, AppError>)
        ensures
            r matches Ok(bytes) ==> zip_read_entries(bytes@) == stored_with(
                archive_entries(self.zip),
                archive_method(self.zip),
            ),
            r is Ok && self.wf() ==> zip_read_entries(r->Ok_0@) == stored_with(
                page_entries(self.pages@, self.ext@),
                Compression::Deflated,
            ),
            self.wf() && within_plain_limits(page_entries(self.pages@, self.ext@)) ==> r is Ok,
            r matches Err(e) ==> archive_failure(e),
    {
        self.zip.finish()
    }
}

} // verus!
