//! Turning the rows of an outside CSV table into new vault records: column
//! mapping, sanitization, deduplication against the vault, id allocation and
//! a cap on the rows consumed.
use std::collections::HashSet;
use vstd::prelude::*;
use crate::records::{PasswordRecord, RecordModel, records_view};
use crate::text::{lower_of, sanitize_string, sanitized, to_lower};

verus! {

broadcast use vstd::std_specs::hash::group_hash_axioms;

/// At most this many data rows are consumed from one table.
pub const MAX_IMPORT_ROWS: usize = 10000;

/// Ids are 32-bit: the vault an import runs against holds at most this many records.
pub const MAX_VAULT_RECORDS: usize = 4000000000;

/// A row of the table as the importer reads it, before sanitization.
pub struct CsvRecord {
    pub website: String,
    pub username: String,
    pub password: String,
    pub category: String,
    pub favorite: bool,
    pub notes: String,
}

/// What a `CsvRecord` holds, as mathematical values.
pub struct CsvModel {
    pub website: Seq<char>,
    pub username: Seq<char>,
    pub password: Seq<char>,
    pub category: Seq<char>,
    pub favorite: bool,
    pub notes: Seq<char>,
}

impl View for CsvRecord {
    type V = CsvModel;

    open spec fn view(&self) -> CsvModel {
        CsvModel {
            website: self.website@,
            username: self.username@,
            password: self.password@,
            category: self.category@,
            favorite: self.favorite,
            notes: self.notes@,
        }
    }
}

/// The records of a CSV text as the `csv` crate reads them, strictly (every
/// record as long as the first) and without treating the first as special:
/// `None` stands for a record it could not read.
pub uninterp spec fn csv_table_of(data: Seq<u8>) -> Seq<Option<Seq<Seq<char>>>>;

pub open spec fn fields_view(v: Vec<String>) -> Seq<Seq<char>> {
    v@.map_values(|s: String| s@)
}

pub open spec fn row_view(r: Option<Vec<String>>) -> Option<Seq<Seq<char>>> {
    match r {
        Some(v) => Some(fields_view(v)),
        None => None,
    }
}

/// Relies on `csv::Reader::records` with `flexible(false)` and no header
/// handling: each record as its fields, or `None` where reading it failed.
#[verifier::external_body]
fn csv_table(data: &[u8]) -> (r: Vec<Option<Vec<String>>>)
    ensures
        r@.len() == csv_table_of(data@).len(),
        forall|i: int| 0 <= i < r@.len() ==> row_view(#[trigger] r@[i]) == csv_table_of(data@)[i],
{
    let mut reader = csv::ReaderBuilder::new().has_headers(false).flexible(false).from_reader(data);
    reader.records().map(|rec| rec.ok().map(|rec| rec.iter().map(String::from).collect())).collect()
}

/// `i` is the first column of header `h` named `name`.
pub open spec fn is_first_column(h: Seq<Seq<char>>, name: Seq<char>, i: int) -> bool {
    &&& 0 <= i < h.len()
    &&& h[i] == name
    &&& forall|j: int| 0 <= j < i ==> h[j] != name
}

/// The first column of `h` named `name`, if any.
pub open spec fn column_of(h: Seq<Seq<char>>, name: Seq<char>) -> Option<int> {
    if exists|i: int| is_first_column(h, name, i) {
        Some(choose|i: int| is_first_column(h, name, i))
    } else {
        None
    }
}

/// The field of row `f` in column `c`, where both exist.
pub open spec fn field_at(f: Seq<Seq<char>>, c: Option<int>) -> Option<Seq<char>> {
    match c {
        Some(i) => if 0 <= i < f.len() {
            Some(f[i])
        } else {
            None
        },
        None => None,
    }
}

/// How a boolean field reads: exactly `true` or `false`.
pub open spec fn parse_bool(s: Seq<char>) -> Option<bool> {
    if s == "true"@ {
        Some(true)
    } else if s == "false"@ {
        Some(false)
    } else {
        None
    }
}

/// The record of row `f` under header `h`: columns `name`, `username` and
/// `password` are required; `category` defaults to `General` and `favorite` to
/// false when absent or empty, and a non-empty `favorite` must read as a
/// boolean; `note` defaults to empty when absent. A column that the header has
/// must have a field in the row. `None`: the row is malformed.
pub open spec fn row_record(h: Seq<Seq<char>>, f: Seq<Seq<char>>) -> Option<CsvModel> {
    let w = field_at(f, column_of(h, "name"@));
    let u = field_at(f, column_of(h, "username"@));
    let p = field_at(f, column_of(h, "password"@));
    let nc = column_of(h, "note"@);
    let cc = column_of(h, "category"@);
    let fc = column_of(h, "favorite"@);
    if w is None || u is None || p is None {
        None
    } else if (nc is Some && field_at(f, nc) is None) || (cc is Some && field_at(f, cc) is None) {
        None
    } else if fc is Some && (field_at(f, fc) is None || ((field_at(f, fc)->0).len() != 0
        && parse_bool(field_at(f, fc)->0) is None)) {
        None
    } else {
        Some(
            CsvModel {
                website: w->0,
                username: u->0,
                password: p->0,
                category: if cc is None || (field_at(f, cc)->0).len() == 0 {
                    "General"@
                } else {
                    field_at(f, cc)->0
                },
                favorite: if fc is None || (field_at(f, fc)->0).len() == 0 {
                    false
                } else {
                    parse_bool(field_at(f, fc)->0)->0
                },
                notes: if nc is None {
                    Seq::empty()
                } else {
                    field_at(f, nc)->0
                },
            },
        )
    }
}

/// The category of a record whose table gives none.
pub fn default_category() -> (r: String)
    ensures
        r@ == "General"@,
{
    "General".to_owned()
}

/// The first column of `header` named `name`.
pub fn find_column(header: &Vec<String>, name: &str) -> (r: Option<usize>)
    ensures
        r matches Some(i) ==> column_of(fields_view(*header), name@) == Some(i as int),
        r is None ==> column_of(fields_view(*header), name@) is None,
{
    let ghost h = fields_view(*header);
    let target = name.to_owned();
    let mut i: usize = 0;
    while i < header.len()
        invariant
            0 <= i <= header@.len(),
            h == fields_view(*header),
            target@ == name@,
            forall|j: int| 0 <= j < i ==> h[j] != name@,
        decreases header@.len() - i,
    {
        if header[i] == target {
            assert(is_first_column(h, name@, i as int));
            let ghost c = choose|k: int| is_first_column(h, name@, k);
            assert(c == i as int) by {
                if c < i {
                    assert(h[c] != name@);
                } else if c > i {
                    assert(h[i as int] != name@);
                }
            }
            return Some(i);
        }
        i += 1;
    }
    assert(!exists|k: int| is_first_column(h, name@, k));
    None
}

fn field_in(fields: &Vec<String>, col: Option<usize>) -> (r: Option<String>)
    ensures
        match col {
            Some(i) => match r {
                Some(s) => field_at(fields_view(*fields), Some(i as int)) == Some(s@),
                None => field_at(fields_view(*fields), Some(i as int)) is None,
            },
            None => r is None,
        },
{
    match col {
        Some(i) => if i < fields.len() {
            Some(fields[i].clone())
        } else {
            None
        },
        None => None,
    }
}

fn bool_of(s: &String) -> (r: Option<bool>)
    ensures
        r == parse_bool(s@),
{
    let t = "true".to_owned();
    let f = "false".to_owned();
    if *s == t {
        Some(true)
    } else if *s == f {
        Some(false)
    } else {
        None
    }
}

/// Reads row `fields` under `header`, as `row_record` says.
pub fn row_to_record(header: &Vec<String>, fields: &Vec<String>) -> (r: Option<CsvRecord>)
    ensures
        match r {
            Some(c) => row_record(fields_view(*header), fields_view(*fields)) == Some(c@),
            None => row_record(fields_view(*header), fields_view(*fields)) is None,
        },
{
    let w = field_in(fields, find_column(header, "name"));
    let u = field_in(fields, find_column(header, "username"));
    let p = field_in(fields, find_column(header, "password"));
    let nc = find_column(header, "note");
    let cc = find_column(header, "category");
    let fc = find_column(header, "favorite");
    let n = field_in(fields, nc);
    let c = field_in(fields, cc);
    let fv = field_in(fields, fc);
    match (w, u, p) {
        (Some(w), Some(u), Some(p)) => {
            let notes = match n {
                Some(s) => s,
                None => {
                    if nc.is_some() {
                        return None;
                    }
                    String::new()
                },
            };
            let category = match c {
                Some(s) => {
                    if s.as_str().is_empty() {
                        default_category()
                    } else {
                        s
                    }
                },
                None => {
                    if cc.is_some() {
                        return None;
                    }
                    default_category()
                },
            };
            let favorite = match fv {
                Some(s) => {
                    if s.as_str().is_empty() {
                        false
                    } else {
                        match bool_of(&s) {
                            Some(b) => b,
                            None => {
                                return None;
                            },
                        }
                    }
                },
                None => {
                    if fc.is_some() {
                        return None;
                    }
                    false
                },
            };
            Some(CsvRecord { website: w, username: u, password: p, category, favorite, notes })
        },
        _ => None,
    }
}

/// A record with every string field sanitized.
pub open spec fn sanitize_model(c: CsvModel) -> CsvModel {
    CsvModel {
        website: sanitized(c.website),
        username: sanitized(c.username),
        password: sanitized(c.password),
        category: sanitized(c.category),
        favorite: c.favorite,
        notes: sanitized(c.notes),
    }
}

/// The case-insensitive key under which two records count as the same entry.
pub open spec fn dedup_key(website: Seq<char>, username: Seq<char>) -> (Seq<char>, Seq<char>) {
    (lower_of(website), lower_of(username))
}

/// `n` is the smallest positive id not in `used`.
pub open spec fn is_min_free(used: Set<u32>, n: u32) -> bool {
    &&& 1 <= n
    &&& !used.contains(n)
    &&& forall|m: u32| 1 <= m < n ==> used.contains(m)
}

/// The smallest positive id not in `used`.
pub open spec fn min_free(used: Set<u32>) -> u32 {
    choose|n: u32| is_min_free(used, n)
}

/// What an import has gathered so far: the dedup keys taken, the ids taken,
/// and the records accepted.
pub struct ImportModel {
    pub keys: Seq<(Seq<char>, Seq<char>)>,
    pub used: Set<u32>,
    pub accepted: Seq<RecordModel>,
}

/// The ids of `v`.
pub open spec fn ids_of(v: Seq<RecordModel>) -> Set<u32>
    decreases v.len(),
{
    if v.len() == 0 {
        Set::empty()
    } else {
        ids_of(v.drop_last()).insert(v.last().id)
    }
}

/// The state before the first row: the keys and ids of the vault.
pub open spec fn seed(existing: Seq<RecordModel>) -> ImportModel {
    ImportModel {
        keys: existing.map_values(|r: RecordModel| dedup_key(r.website, r.username)),
        used: ids_of(existing),
        accepted: Seq::empty(),
    }
}

/// Offers one record: sanitized, it is accepted under the smallest free id
/// unless its website or username is empty or its key is taken.
pub open spec fn offer(st: ImportModel, c: CsvModel) -> ImportModel {
    let s = sanitize_model(c);
    let key = dedup_key(s.website, s.username);
    if s.website.len() == 0 || s.username.len() == 0 || st.keys.contains(key) {
        st
    } else {
        let id = min_free(st.used);
        ImportModel {
            keys: st.keys.push(key),
            used: st.used.insert(id),
            accepted: st.accepted.push(
                RecordModel {
                    id,
                    website: s.website,
                    username: s.username,
                    password: s.password,
                    category: s.category,
                    favorite: s.favorite,
                    notes: s.notes,
                },
            ),
        }
    }
}

/// One data row: a malformed row, or any row under an unreadable header, changes nothing.
pub open spec fn step(
    st: ImportModel,
    header: Option<Seq<Seq<char>>>,
    row: Option<Seq<Seq<char>>>,
) -> ImportModel {
    match (header, row) {
        (Some(h), Some(f)) => match row_record(h, f) {
            Some(c) => offer(st, c),
            None => st,
        },
        _ => st,
    }
}

/// The rows offered one after the other.
pub open spec fn run_rows(
    st: ImportModel,
    header: Option<Seq<Seq<char>>>,
    rows: Seq<Option<Seq<Seq<char>>>>,
) -> ImportModel
    decreases rows.len(),
{
    if rows.len() == 0 {
        st
    } else {
        step(run_rows(st, header, rows.drop_last()), header, rows.last())
    }
}

/// How many data rows of `rows` are consumed.
pub open spec fn consumed(n: int) -> int {
    if n <= MAX_IMPORT_ROWS {
        n
    } else {
        MAX_IMPORT_ROWS as int
    }
}

/// The records that importing `table` against the vault `existing` accepts:
/// the first record is the header, and at most `MAX_IMPORT_ROWS` rows after it
/// are consumed.
pub open spec fn import_model(
    existing: Seq<RecordModel>,
    table: Seq<Option<Seq<Seq<char>>>>,
) -> Seq<RecordModel> {
    if table.len() == 0 {
        Seq::empty()
    } else {
        let rows = table.drop_first();
        run_rows(seed(existing), table[0], rows.take(consumed(rows.len() as int))).accepted
    }
}

proof fn lemma_ids_bound(v: Seq<RecordModel>)
    ensures
        ids_of(v).finite(),
        ids_of(v).len() <= v.len(),
    decreases v.len(),
{
    if v.len() > 0 {
        lemma_ids_bound(v.drop_last());
    }
}

/// A finite set of ids that holds all of `1..=c` has at least `c` members.
proof fn lemma_prefix_bound(s: Set<u32>, c: u32)
    requires
        s.finite(),
        forall|m: u32| 1 <= m <= c ==> s.contains(m),
    ensures
        c <= s.len(),
    decreases c,
{
    if c > 0 {
        let t = s.remove(c);
        assert forall|m: u32| 1 <= m <= (c - 1) as u32 implies t.contains(m) by {
            assert(s.contains(m));
        }
        lemma_prefix_bound(t, (c - 1) as u32);
    }
}

/// The smallest id from `cursor` up that `used` lacks; every id below
/// `cursor` is taken.
fn next_free_id(used: &HashSet<u32>, cursor: u32) -> (r: u32)
    requires
        1 <= cursor,
        used@.finite(),
        used@.len() < u32::MAX,
        forall|m: u32| 1 <= m < cursor ==> used@.contains(m),
    ensures
        is_min_free(used@, r),
        r == min_free(used@),
        r >= cursor,
{
    let mut n = cursor;
    while used.contains(&n)
        invariant
            1 <= cursor <= n,
            used@.finite(),
            used@.len() < u32::MAX,
            forall|m: u32| 1 <= m < n ==> used@.contains(m),
        decreases u32::MAX - n,
    {
        proof {
            lemma_prefix_bound(used@, n);
        }
        n = n + 1;
    }
    proof {
        let k = choose|k: u32| is_min_free(used@, k);
        assert(is_min_free(used@, n));
        assert(k == n) by {
            if k < n {
                assert(used@.contains(k));
            } else if k > n {
                assert(used@.contains(n));
            }
        }
    }
    n
}

pub open spec fn pair_view(p: (String, String)) -> (Seq<char>, Seq<char>) {
    (p.0@, p.1@)
}

fn key_taken(keys: &Vec<(String, String)>, website: &String, username: &String) -> (r: bool)
    ensures
        r == keys@.map_values(|p: (String, String)| pair_view(p)).contains((website@, username@)),
{
    let ghost ks = keys@.map_values(|p: (String, String)| pair_view(p));
    let mut i: usize = 0;
    while i < keys.len()
        invariant
            0 <= i <= keys@.len(),
            ks == keys@.map_values(|p: (String, String)| pair_view(p)),
            forall|j: int| 0 <= j < i ==> ks[j] != (website@, username@),
        decreases keys@.len() - i,
    {
        if keys[i].0 == *website && keys[i].1 == *username {
            assert(ks[i as int] == (website@, username@));
            return true;
        }
        i += 1;
    }
    false
}

/// The fields of each record of a table, or `None` for a record that could
/// not be read.
pub open spec fn table_view(t: Seq<Option<Vec<String>>>) -> Seq<Option<Seq<Seq<char>>>> {
    t.map_values(|r: Option<Vec<String>>| row_view(r))
}

/// Imports the CSV text `data` against the vault `existing` and returns the
/// newly accepted records only, as `import_model` says.
pub fn import_csv(existing: &Vec<PasswordRecord>, data: &[u8]) -> (r: Vec<PasswordRecord>)
    requires
        existing@.len() <= MAX_VAULT_RECORDS,
    ensures
        records_view(r@) == import_model(records_view(existing@), csv_table_of(data@)),
        r@.len() <= MAX_IMPORT_ROWS,
{
    let table = csv_table(data);
    assert(table_view(table@) =~= csv_table_of(data@));
    import_rows(existing, &table)
}

/// Imports the records of `table`, the first of which is the header, against
/// the vault `existing` and returns the newly accepted records only, as
/// `import_model` says.
pub fn import_rows(existing: &Vec<PasswordRecord>, table: &Vec<Option<Vec<String>>>) -> (r: Vec<
    PasswordRecord,
>)
    requires
        existing@.len() <= MAX_VAULT_RECORDS,
    ensures
        records_view(r@) == import_model(records_view(existing@), table_view(table@)),
        r@.len() <= MAX_IMPORT_ROWS,
{
    let ghost ex = records_view(existing@);
    let mut keys: Vec<(String, String)> = Vec::new();
    let mut used: HashSet<u32> = HashSet::new();
    let mut i: usize = 0;
    while i < existing.len()
        invariant
            0 <= i <= existing@.len(),
            ex == records_view(existing@),
            keys@.map_values(|p: (String, String)| pair_view(p)) == ex.take(i as int).map_values(
                |r: RecordModel| dedup_key(r.website, r.username),
            ),
            used@ == ids_of(ex.take(i as int)),
            keys@.len() == i,
        decreases existing@.len() - i,
    {
        let rec = &existing[i];
        let key = (to_lower(rec.website.as_str()), to_lower(rec.username.as_str()));
        let ghost before = keys@;
        keys.push(key);
        used.insert(rec.id);
        proof {
            assert(ex.take(i as int + 1).drop_last() == ex.take(i as int));
            assert(ex[i as int] == existing@[i as int]@);
            let km = keys@.map_values(|p: (String, String)| pair_view(p));
            let em = ex.take(i as int + 1).map_values(
                |r: RecordModel| dedup_key(r.website, r.username),
            );
            let bm = before.map_values(|p: (String, String)| pair_view(p));
            assert forall|j: int| 0 <= j < i + 1 implies km[j] == em[j] by {
                if j < i {
                    assert(keys@[j] == before[j]);
                    assert(bm[j] == ex.take(i as int).map_values(
                        |r: RecordModel| dedup_key(r.website, r.username),
                    )[j]);
                }
            }
            assert(km =~= em);
        }
        i += 1;
    }
    assert(ex.take(ex.len() as int) == ex);
    let ghost st0 = seed(ex);
    let mut accepted: Vec<PasswordRecord> = Vec::new();
    if table.len() == 0 {
        return accepted;
    }
    let ghost tv = table_view(table@);
    let ghost rows = tv.drop_first();
    let ghost header = tv[0];
    let limit: usize = if table.len() - 1 <= MAX_IMPORT_ROWS {
        table.len() - 1
    } else {
        MAX_IMPORT_ROWS
    };
    let mut cursor: u32 = 1;
    let mut k: usize = 0;
    proof {
        lemma_ids_bound(ex);
    }
    while k < limit
        invariant
            0 <= k <= limit,
            limit == consumed(rows.len() as int),
            limit <= MAX_IMPORT_ROWS,
            rows.len() == table@.len() - 1,
            tv == table_view(table@),
            rows == tv.drop_first(),
            header == tv[0],
            table@.len() == tv.len(),
            forall|j: int| 0 <= j < table@.len() ==> row_view(#[trigger] table@[j]) == tv[j],
            ex.len() <= MAX_VAULT_RECORDS,
            ({
                let st = run_rows(st0, header, rows.take(k as int));
                &&& keys@.map_values(|p: (String, String)| pair_view(p)) == st.keys
                &&& used@ == st.used
                &&& records_view(accepted@) == st.accepted
            }),
            used@.finite(),
            used@.len() <= ex.len() + accepted@.len(),
            accepted@.len() <= k,
            1 <= cursor,
            forall|m: u32| 1 <= m < cursor ==> used@.contains(m),
        decreases limit - k,
    {
        let ghost st = run_rows(st0, header, rows.take(k as int));
        assert(rows.take(k as int + 1).drop_last() == rows.take(k as int));
        assert(rows.take(k as int + 1).last() == tv[k + 1]);
        let ghost row = tv[k + 1];
        assert(row_view(table@[0]) == header);
        assert(row_view(table@[k + 1]) == row);
        match (&table[0], &table[k + 1]) {
            (Some(h), Some(f)) => {
                match row_to_record(h, f) {
                    Some(c) => {
                        let website = sanitize_string(c.website.as_str());
                        let username = sanitize_string(c.username.as_str());
                        let password = sanitize_string(c.password.as_str());
                        let category = sanitize_string(c.category.as_str());
                        let notes = sanitize_string(c.notes.as_str());
                        if !website.as_str().is_empty() && !username.as_str().is_empty() {
                            let lw = to_lower(website.as_str());
                            let lu = to_lower(username.as_str());
                            if !key_taken(&keys, &lw, &lu) {
                                let id = next_free_id(&used, cursor);
                                used.insert(id);
                                keys.push((lw, lu));
                                accepted.push(
                                    PasswordRecord {
                                        id,
                                        website,
                                        username,
                                        password,
                                        category,
                                        favorite: c.favorite,
                                        notes,
                                    },
                                );
                                cursor = id;
                                proof {
                                    assert(keys@.map_values(|p: (String, String)| pair_view(p))
                                        =~= st.keys.push(dedup_key(website@, username@)));
                                    assert(records_view(accepted@) =~= offer(st, c@).accepted);
                                }
                            }
                        }
                    },
                    None => {},
                }
            },
            _ => {},
        }
        k += 1;
    }
    accepted
}

/// The dedup key of a record.
pub open spec fn record_key(r: RecordModel) -> (Seq<char>, Seq<char>) {
    dedup_key(r.website, r.username)
}

/// What holds of every state of an import against the vault `ex`.
pub open spec fn import_invariant(ex: Seq<RecordModel>, st: ImportModel) -> bool {
    let acc = st.accepted;
    &&& st.used.finite()
    &&& st.used.len() <= ex.len() + acc.len()
    &&& ids_of(ex).subset_of(st.used)
    &&& forall|i: int| 0 <= i < acc.len() ==> st.used.contains(#[trigger] acc[i].id)
    &&& forall|i: int| 0 <= i < acc.len() ==> 1 <= #[trigger] acc[i].id && !ids_of(ex).contains(acc[i].id)
    &&& forall|i: int, j: int| 0 <= i < j < acc.len() ==> acc[i].id != acc[j].id
    &&& st.keys == seed(ex).keys + acc.map_values(|r: RecordModel| record_key(r))
    &&& forall|i: int| 0 <= i < acc.len() ==> !seed(ex).keys.contains(#[trigger] record_key(acc[i]))
    &&& forall|i: int, j: int| 0 <= i < j < acc.len() ==> record_key(acc[i]) != record_key(acc[j])
}

proof fn lemma_ids_of_contains(v: Seq<RecordModel>, i: int)
    requires
        0 <= i < v.len(),
    ensures
        ids_of(v).contains(v[i].id),
    decreases v.len(),
{
    if i < v.len() - 1 {
        lemma_ids_of_contains(v.drop_last(), i);
    }
}

/// Either some id up to `c` is the smallest free one, or all of `1..=c` are taken.
proof fn lemma_min_free_search(s: Set<u32>, c: u32)
    ensures
        (exists|n: u32| n <= c && is_min_free(s, n)) || (forall|m: u32| 1 <= m <= c ==> s.contains(m)),
    decreases c,
{
    if c > 0 {
        let b = (c - 1) as u32;
        lemma_min_free_search(s, b);
        if exists|n: u32| n <= b && is_min_free(s, n) {
            let n = choose|n: u32| n <= b && is_min_free(s, n);
            assert(n <= c && is_min_free(s, n));
        } else if !s.contains(c) {
            assert(is_min_free(s, c));
        } else {
            assert forall|m: u32| 1 <= m <= c implies s.contains(m) by {
                if m < c {
                    assert(1 <= m <= b);
                }
            }
        }
    }
}

/// A finite set of fewer than `u32::MAX` ids leaves a smallest free one.
proof fn lemma_min_free_exists(s: Set<u32>)
    requires
        s.finite(),
        s.len() < u32::MAX,
    ensures
        is_min_free(s, min_free(s)),
{
    let c = (s.len() + 1) as u32;
    lemma_min_free_search(s, c);
    if forall|m: u32| 1 <= m <= c ==> s.contains(m) {
        lemma_prefix_bound(s, c);
    }
}

proof fn lemma_seed_invariant(ex: Seq<RecordModel>)
    ensures
        import_invariant(ex, seed(ex)),
{
    lemma_ids_bound(ex);
    let st = seed(ex);
    assert(st.keys + st.accepted.map_values(|r: RecordModel| record_key(r)) =~= st.keys);
}

proof fn lemma_offer_invariant(ex: Seq<RecordModel>, st: ImportModel, c: CsvModel)
    requires
        import_invariant(ex, st),
        ex.len() + st.accepted.len() < u32::MAX,
    ensures
        import_invariant(ex, offer(st, c)),
        offer(st, c).accepted.len() <= st.accepted.len() + 1,
{
    let s = sanitize_model(c);
    let key = dedup_key(s.website, s.username);
    if !(s.website.len() == 0 || s.username.len() == 0 || st.keys.contains(key)) {
        let acc = st.accepted;
        let sk = seed(ex).keys;
        let id = min_free(st.used);
        lemma_min_free_exists(st.used);
        let nx = offer(st, c);
        let r = nx.accepted.last();
        assert(record_key(r) == key);
        let am = acc.map_values(|r: RecordModel| record_key(r));
        assert(nx.accepted.map_values(|r: RecordModel| record_key(r)) =~= am.push(key));
        assert(nx.keys =~= sk + am.push(key));
        assert forall|i: int| 0 <= i < acc.len() implies record_key(acc[i]) != key by {
            assert((sk + am)[sk.len() + i] == record_key(acc[i]));
        }
        assert(!sk.contains(key)) by {
            if sk.contains(key) {
                let j = choose|j: int| 0 <= j < sk.len() && sk[j] == key;
                assert((sk + am)[j] == key);
            }
        }
        assert forall|i: int| 0 <= i < nx.accepted.len() implies 1 <= #[trigger] nx.accepted[i].id
            && !ids_of(ex).contains(nx.accepted[i].id) by {
            if i == acc.len() {
                assert(!st.used.contains(id));
            } else {
                assert(nx.accepted[i] == acc[i]);
            }
        }
        assert forall|i: int, j: int| 0 <= i < j < nx.accepted.len() implies nx.accepted[i].id
            != nx.accepted[j].id && record_key(nx.accepted[i]) != record_key(nx.accepted[j]) by {
            assert(nx.accepted[i] == acc[i]);
            if j < acc.len() {
                assert(nx.accepted[j] == acc[j]);
            } else {
                assert(st.used.contains(acc[i].id));
            }
        }
        assert forall|i: int| 0 <= i < nx.accepted.len() implies !sk.contains(
            #[trigger] record_key(nx.accepted[i]),
        ) by {
            if i < acc.len() {
                assert(nx.accepted[i] == acc[i]);
            }
        }
        assert forall|i: int| 0 <= i < nx.accepted.len() implies nx.used.contains(
            #[trigger] nx.accepted[i].id,
        ) by {
            if i < acc.len() {
                assert(nx.accepted[i] == acc[i]);
            }
        }
    }
}

proof fn lemma_run_rows_invariant(
    ex: Seq<RecordModel>,
    header: Option<Seq<Seq<char>>>,
    rows: Seq<Option<Seq<Seq<char>>>>,
)
    requires
        ex.len() <= MAX_VAULT_RECORDS,
        rows.len() <= MAX_IMPORT_ROWS,
    ensures
        import_invariant(ex, run_rows(seed(ex), header, rows)),
        run_rows(seed(ex), header, rows).accepted.len() <= rows.len(),
    decreases rows.len(),
{
    if rows.len() == 0 {
        lemma_seed_invariant(ex);
    } else {
        lemma_run_rows_invariant(ex, header, rows.drop_last());
        let st = run_rows(seed(ex), header, rows.drop_last());
        match (header, rows.last()) {
            (Some(h), Some(f)) => match row_record(h, f) {
                Some(c) => lemma_offer_invariant(ex, st, c),
                None => {},
            },
            _ => {},
        }
    }
}

/// Every record an import accepts has a positive id that no record of the
/// vault has and no other accepted record has, and a dedup key that no record
/// of the vault has and no other accepted record has.
pub proof fn lemma_import_ids_and_keys_fresh(
    existing: Seq<RecordModel>,
    table: Seq<Option<Seq<Seq<char>>>>,
)
    requires
        existing.len() <= MAX_VAULT_RECORDS,
    ensures
        ({
            let out = import_model(existing, table);
            &&& forall|i: int| 0 <= i < out.len() ==> 1 <= #[trigger] out[i].id
            &&& forall|i: int, k: int|
                0 <= i < out.len() && 0 <= k < existing.len() ==> #[trigger] out[i].id
                    != #[trigger] existing[k].id
            &&& forall|i: int, j: int| 0 <= i < j < out.len() ==> out[i].id != out[j].id
            &&& forall|i: int, k: int|
                0 <= i < out.len() && 0 <= k < existing.len() ==> record_key(#[trigger] out[i])
                    != record_key(#[trigger] existing[k])
            &&& forall|i: int, j: int|
                0 <= i < j < out.len() ==> record_key(out[i]) != record_key(out[j])
        }),
{
    if table.len() > 0 {
        let rows = table.drop_first();
        let taken = rows.take(consumed(rows.len() as int));
        lemma_run_rows_invariant(existing, table[0], taken);
        let out = import_model(existing, table);
        assert forall|i: int, k: int|
            0 <= i < out.len() && 0 <= k < existing.len() implies #[trigger] out[i].id
            != #[trigger] existing[k].id by {
            lemma_ids_of_contains(existing, k);
        }
        assert forall|i: int, k: int|
            0 <= i < out.len() && 0 <= k < existing.len() implies record_key(#[trigger] out[i])
            != record_key(#[trigger] existing[k]) by {
            assert(seed(existing).keys[k] == record_key(existing[k]));
        }
        assert forall|i: int| 0 <= i < out.len() implies 1 <= #[trigger] out[i].id by {}
        assert forall|i: int, j: int| 0 <= i < j < out.len() implies out[i].id != out[j].id
            && record_key(out[i]) != record_key(out[j]) by {}
    }
}

/// The sanitized record of a data row, where the row is well formed and the
/// record has a website and a username.
pub open spec fn clean_row(h: Seq<Seq<char>>, row: Option<Seq<Seq<char>>>) -> Option<CsvModel> {
    match row {
        Some(f) => match row_record(h, f) {
            Some(c) => {
                let s = sanitize_model(c);
                if s.website.len() > 0 && s.username.len() > 0 {
                    Some(s)
                } else {
                    None
                }
            },
            None => None,
        },
        None => None,
    }
}

/// The dedup key of a data row's sanitized record.
pub open spec fn row_key(h: Seq<Seq<char>>, row: Option<Seq<Seq<char>>>) -> (Seq<char>, Seq<char>) {
    let s = clean_row(h, row)->0;
    dedup_key(s.website, s.username)
}

/// The rows of `rows` are all clean, with keys distinct from one another and
/// from every key of the vault `ex`.
pub open spec fn fresh_rows(
    ex: Seq<RecordModel>,
    h: Seq<Seq<char>>,
    rows: Seq<Option<Seq<Seq<char>>>>,
) -> bool {
    &&& forall|i: int| 0 <= i < rows.len() ==> clean_row(h, #[trigger] rows[i]) is Some
    &&& forall|i: int, j: int|
        0 <= i < j < rows.len() ==> row_key(h, #[trigger] rows[i]) != row_key(h, #[trigger] rows[j])
    &&& forall|i: int, k: int|
        0 <= i < rows.len() && 0 <= k < ex.len() ==> row_key(h, #[trigger] rows[i]) != record_key(
            #[trigger] ex[k],
        )
}

proof fn lemma_fresh_rows_all_accepted(
    ex: Seq<RecordModel>,
    h: Seq<Seq<char>>,
    rows: Seq<Option<Seq<Seq<char>>>>,
    m: int,
)
    requires
        ex.len() <= MAX_VAULT_RECORDS,
        0 <= m <= rows.len() <= MAX_IMPORT_ROWS,
        fresh_rows(ex, h, rows),
    ensures
        ({
            let acc = run_rows(seed(ex), Some(h), rows.take(m)).accepted;
            &&& acc.len() == m
            &&& forall|i: int|
                0 <= i < m ==> #[trigger] record_key(acc[i]) == row_key(h, rows[i])
                    && acc[i].website == clean_row(h, rows[i])->0.website
                    && acc[i].username == clean_row(h, rows[i])->0.username
        }),
    decreases m,
{
    if m == 0 {
        assert(rows.take(0).len() == 0);
    } else {
        lemma_fresh_rows_all_accepted(ex, h, rows, m - 1);
        let pre = rows.take(m - 1);
        assert(rows.take(m).drop_last() == pre);
        assert(rows.take(m).last() == rows[m - 1]);
        lemma_run_rows_invariant(ex, Some(h), pre);
        let st = run_rows(seed(ex), Some(h), pre);
        let acc = st.accepted;
        let sk = seed(ex).keys;
        let am = acc.map_values(|r: RecordModel| record_key(r));
        let row = rows[m - 1];
        let key = row_key(h, row);
        assert(clean_row(h, row) is Some);
        assert(!st.keys.contains(key)) by {
            if st.keys.contains(key) {
                let j = choose|j: int| 0 <= j < st.keys.len() && st.keys[j] == key;
                if j < sk.len() {
                    assert(sk[j] == record_key(ex[j]));
                    assert(row_key(h, rows[m - 1]) != record_key(ex[j]));
                } else {
                    let i = j - sk.len();
                    assert(am[i] == record_key(acc[i]));
                    assert(row_key(h, rows[i]) != row_key(h, rows[m - 1]));
                }
            }
        }
        let nx = run_rows(seed(ex), Some(h), rows.take(m));
        assert forall|i: int| 0 <= i < m implies #[trigger] record_key(nx.accepted[i]) == row_key(
            h,
            rows[i],
        ) && nx.accepted[i].website == clean_row(h, rows[i])->0.website
            && nx.accepted[i].username == clean_row(h, rows[i])->0.username by {
            if i < m - 1 {
                assert(nx.accepted[i] == acc[i]);
            }
        }
    }
}

/// Where every consumed data row is well formed, has a website and a
/// username, and has a dedup key found neither in the vault nor in another
/// consumed row, an import accepts one record per consumed row (so at most
/// `MAX_IMPORT_ROWS`), in the order of the rows.
pub proof fn lemma_import_accepts_every_fresh_row(
    existing: Seq<RecordModel>,
    table: Seq<Option<Seq<Seq<char>>>>,
)
    requires
        existing.len() <= MAX_VAULT_RECORDS,
        table.len() > 0,
        table[0] is Some,
        fresh_rows(
            existing,
            table[0]->0,
            table.drop_first().take(consumed(table.len() - 1)),
        ),
    ensures
        ({
            let out = import_model(existing, table);
            let rows = table.drop_first();
            &&& out.len() == consumed(rows.len() as int)
            &&& forall|i: int|
                0 <= i < out.len() ==> #[trigger] out[i].website == clean_row(
                    table[0]->0,
                    rows[i],
                )->0.website && out[i].username == clean_row(table[0]->0, rows[i])->0.username
        }),
{
    let rows = table.drop_first();
    let n = consumed(rows.len() as int);
    let taken = rows.take(n);
    lemma_fresh_rows_all_accepted(existing, table[0]->0, taken, n);
    assert(taken.take(n) == taken);
    let out = import_model(existing, table);
    assert forall|i: int| 0 <= i < out.len() implies #[trigger] out[i].website == clean_row(
        table[0]->0,
        rows[i],
    )->0.website && out[i].username == clean_row(table[0]->0, rows[i])->0.username by {
        assert(taken[i] == rows[i]);
        assert(record_key(out[i]) == row_key(table[0]->0, taken[i]));
    }
}

} // verus!
