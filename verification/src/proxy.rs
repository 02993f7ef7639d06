//! The configuration reconciliation engine: turns the server's columnar
//! configuration dump (a `fields` name list plus `data` row arrays) into
//! row maps, and those into deduplicated sets of monitored hosts and
//! items, with item-key compression and host/item join views.
//!
//! The tabulation is deliberately lenient: a `fields` or `data` node that
//! is not an array yields nothing, a row that is not an array is skipped,
//! a ragged row is zipped as far as it reaches, and a column whose name is
//! not a string is dropped — nothing here panics or raises.

use crate::duration::{spec_trans, trans};
use crate::protocol::ZabbixProtocol;
use crate::text::{split_first, split_prefix, str_eq};
use vstd::prelude::*;

verus! {

/// One cell of the configuration table, as deep as the reconciler reads
/// it. `Composite` stands for a nested array or object (or a number that
/// does not fit `i64`), which the reconciler never looks inside.
pub enum CellValue {
    Null,
    Bool(bool),
    Int(i64),
    Text(String),
    Composite,
}

pub enum CellV {
    Null,
    Bool(bool),
    Int(i64),
    Text(Seq<char>),
    Composite,
}

impl View for CellValue {
    type V = CellV;

    open spec fn view(&self) -> CellV {
        match self {
            CellValue::Null => CellV::Null,
            CellValue::Bool(b) => CellV::Bool(*b),
            CellValue::Int(v) => CellV::Int(*v),
            CellValue::Text(t) => CellV::Text(t@),
            CellValue::Composite => CellV::Composite,
        }
    }
}

/// The `fields` node of one table section: a list of column names, or
/// anything else, which yields an empty tabulation.
pub enum ConfigFields {
    Names(Vec<CellValue>),
    Malformed,
}

/// One row of the `data` node: a list of cells, or anything else, which
/// is skipped.
pub enum ConfigRow {
    Cells(Vec<CellValue>),
    Malformed,
}

/// The `data` node of one table section: a list of rows, or anything
/// else, which yields an empty tabulation.
pub enum ConfigData {
    Rows(Vec<ConfigRow>),
    Malformed,
}

pub open spec fn cell_seq(v: Seq<CellValue>) -> Seq<CellV> {
    Seq::new(v.len(), |i: int| v[i]@)
}

impl View for ConfigFields {
    type V = Option<Seq<CellV>>;

    open spec fn view(&self) -> Option<Seq<CellV>> {
        match self {
            ConfigFields::Names(v) => Some(cell_seq(v@)),
            ConfigFields::Malformed => None,
        }
    }
}

impl View for ConfigRow {
    type V = Option<Seq<CellV>>;

    open spec fn view(&self) -> Option<Seq<CellV>> {
        match self {
            ConfigRow::Cells(v) => Some(cell_seq(v@)),
            ConfigRow::Malformed => None,
        }
    }
}

pub open spec fn config_row_seq(v: Seq<ConfigRow>) -> Seq<Option<Seq<CellV>>> {
    Seq::new(v.len(), |i: int| v[i]@)
}

impl View for ConfigData {
    type V = Option<Seq<Option<Seq<CellV>>>>;

    open spec fn view(&self) -> Option<Seq<Option<Seq<CellV>>>> {
        match self {
            ConfigData::Rows(v) => Some(config_row_seq(v@)),
            ConfigData::Malformed => None,
        }
    }
}

/// One named cell of a tabulated row.
pub struct RowCell {
    pub name: String,
    pub value: CellValue,
}

pub struct RowCellV {
    pub name: Seq<char>,
    pub value: CellV,
}

impl View for RowCell {
    type V = RowCellV;

    open spec fn view(&self) -> RowCellV {
        RowCellV { name: self.name@, value: self.value@ }
    }
}

/// One tabulated row: column names zipped positionally with the row's
/// cells. A later cell under the same name shadows an earlier one, as an
/// insertion into a map would.
pub struct Row {
    pub cells: Vec<RowCell>,
}

impl View for Row {
    type V = Seq<RowCellV>;

    open spec fn view(&self) -> Seq<RowCellV> {
        Seq::new(self.cells@.len(), |i: int| self.cells@[i]@)
    }
}

pub open spec fn rows_seq(rs: Seq<Row>) -> Seq<Seq<RowCellV>> {
    Seq::new(rs.len(), |i: int| rs[i]@)
}

pub open spec fn spec_min(a: int, b: int) -> int {
    if a <= b {
        a
    } else {
        b
    }
}

/// The first `k` positions of one row zipped against the column names:
/// a pair for each position whose column name is a string.
pub open spec fn zip_row_upto(fields: Seq<CellV>, row: Seq<CellV>, k: int) -> Seq<RowCellV>
    decreases k,
{
    if k <= 0 {
        Seq::empty()
    } else {
        zip_row_upto(fields, row, k - 1) + (match fields[k - 1] {
            CellV::Text(name) => seq![RowCellV { name: name, value: row[k - 1] }],
            _ => Seq::empty(),
        })
    }
}

/// One row zipped against the column names, as far as both reach.
pub open spec fn zip_row(fields: Seq<CellV>, row: Seq<CellV>) -> Seq<RowCellV> {
    zip_row_upto(fields, row, spec_min(fields.len() as int, row.len() as int))
}

/// The first `k` rows tabulated: each well-formed row zipped, the rest
/// skipped.
pub open spec fn spec_tabulate_upto(
    fields: Seq<CellV>,
    rows: Seq<Option<Seq<CellV>>>,
    k: int,
) -> Seq<Seq<RowCellV>>
    decreases k,
{
    if k <= 0 {
        Seq::empty()
    } else {
        spec_tabulate_upto(fields, rows, k - 1) + (match rows[k - 1] {
            Some(r) => seq![zip_row(fields, r)],
            None => Seq::empty(),
        })
    }
}

/// The whole table tabulated; a malformed `fields` or `data` node yields
/// nothing.
pub open spec fn spec_tabulate(
    fields: Option<Seq<CellV>>,
    data: Option<Seq<Option<Seq<CellV>>>>,
) -> Seq<Seq<RowCellV>> {
    match (fields, data) {
        (Some(f), Some(rows)) => spec_tabulate_upto(f, rows, rows.len() as int),
        _ => Seq::empty(),
    }
}

/// Copies a cell.
fn clone_cell(c: &CellValue) -> (r: CellValue)
    ensures
        r@ == c@,
{
    match c {
        CellValue::Null => CellValue::Null,
        CellValue::Bool(b) => CellValue::Bool(*b),
        CellValue::Int(v) => CellValue::Int(*v),
        CellValue::Text(t) => CellValue::Text(t.clone()),
        CellValue::Composite => CellValue::Composite,
    }
}

/// Zips one row's cells against the column names.
fn zip_one(fields: &Vec<CellValue>, cells: &Vec<CellValue>) -> (r: Row)
    ensures
        r@ == zip_row(cell_seq(fields@), cell_seq(cells@)),
{
    let mut rc: Vec<RowCell> = Vec::new();
    let n: usize = if fields.len() <= cells.len() {
        fields.len()
    } else {
        cells.len()
    };
    let mut p: usize = 0;
    while p < n
        invariant
            p <= n,
            n == spec_min(fields@.len() as int, cells@.len() as int),
            Seq::new(rc@.len(), |i: int| rc@[i]@) == zip_row_upto(
                cell_seq(fields@),
                cell_seq(cells@),
                p as int,
            ),
        decreases n - p,
    {
        match &fields[p] {
            CellValue::Text(name) => {
                let value = clone_cell(&cells[p]);
                rc.push(RowCell { name: name.clone(), value });
            },
            _ => {},
        }
        p += 1;
        assert(Seq::new(rc@.len(), |i: int| rc@[i]@) =~= zip_row_upto(
            cell_seq(fields@),
            cell_seq(cells@),
            p as int,
        ));
    }
    let r = Row { cells: rc };
    assert(r@ =~= zip_row(cell_seq(fields@), cell_seq(cells@)));
    r
}

/// Tabulates the `fields` and `data` nodes of one table section into row
/// maps, in row order, skipping whatever is not shaped as expected.
pub fn get_item(fields: &ConfigFields, data: &ConfigData) -> (r: Vec<Row>)
    ensures
        rows_seq(r@) == spec_tabulate(fields@, data@),
{
    let mut out: Vec<Row> = Vec::new();
    let fnames = match fields {
        ConfigFields::Names(v) => v,
        ConfigFields::Malformed => {
            assert(rows_seq(out@) =~= spec_tabulate(fields@, data@));
            return out;
        },
    };
    let drows = match data {
        ConfigData::Rows(v) => v,
        ConfigData::Malformed => {
            assert(rows_seq(out@) =~= spec_tabulate(fields@, data@));
            return out;
        },
    };
    let mut k: usize = 0;
    while k < drows.len()
        invariant
            k <= drows@.len(),
            rows_seq(out@) == spec_tabulate_upto(cell_seq(fnames@), config_row_seq(drows@), k as int),
        decreases drows@.len() - k,
    {
        match &drows[k] {
            ConfigRow::Cells(cells) => {
                let row = zip_one(fnames, cells);
                out.push(row);
            },
            ConfigRow::Malformed => {},
        }
        k += 1;
        assert(rows_seq(out@) =~= spec_tabulate_upto(
            cell_seq(fnames@),
            config_row_seq(drows@),
            k as int,
        ));
    }
    assert(rows_seq(out@) =~= spec_tabulate(fields@, data@));
    out
}

/// The value of the last cell named `key` in a tabulated row, as a map
/// lookup after positional inserts would find it.
pub open spec fn row_get(row: Seq<RowCellV>, key: Seq<char>) -> Option<CellV>
    decreases row.len(),
{
    if row.len() == 0 {
        None
    } else if row.last().name == key {
        Some(row.last().value)
    } else {
        row_get(row.drop_last(), key)
    }
}

/// The cell named `key`, when it is an integer.
pub open spec fn row_i64(row: Seq<RowCellV>, key: Seq<char>) -> Option<i64> {
    match row_get(row, key) {
        Some(CellV::Int(v)) => Some(v),
        _ => None,
    }
}

/// The cell named `key`, when it is a string.
pub open spec fn row_text(row: Seq<RowCellV>, key: Seq<char>) -> Option<Seq<char>> {
    match row_get(row, key) {
        Some(CellV::Text(t)) => Some(t),
        _ => None,
    }
}

/// Looks `key` up in a tabulated row.
fn row_find(row: &Row, key: &str) -> (r: Option<CellValue>)
    ensures
        match r {
            Some(c) => row_get(row@, key@) == Some(c@),
            None => row_get(row@, key@) is None,
        },
{
    let mut i: usize = row.cells.len();
    assert(row@.subrange(0, i as int) =~= row@);
    while i > 0
        invariant
            i <= row.cells@.len(),
            row@.len() == row.cells@.len(),
            row_get(row@, key@) == row_get(row@.subrange(0, i as int), key@),
        decreases i,
    {
        i -= 1;
        let c = &row.cells[i];
        let ghost prefix = row@.subrange(0, i + 1);
        assert(prefix.last() == row@[i as int] && prefix.drop_last() =~= row@.subrange(0, i as int));
        if str_eq(c.name.as_str(), key) {
            return Some(clone_cell(&c.value));
        }
    }
    None
}

/// A monitored host row: its id, its technical name, and (in the
/// protocol generations that send one) its display name.
#[derive(Debug)]
pub struct Host {
    pub hostid: i64,
    pub host: String,
    pub name: String,
}

pub struct HostV {
    pub hostid: i64,
    pub host: Seq<char>,
    pub name: Seq<char>,
}

impl View for Host {
    type V = HostV;

    open spec fn view(&self) -> HostV {
        HostV { hostid: self.hostid, host: self.host@, name: self.name@ }
    }
}

/// The host a tabulated row denotes, if any. With `filter_status` only a
/// row whose `status` cell is the integer 0 counts; the id must be an
/// integer cell and the technical name a string cell; with `with_name`
/// the display name must be a string cell too, else it is left empty.
pub open spec fn spec_host_of_row(row: Seq<RowCellV>, filter_status: bool, with_name: bool) -> Option<
    HostV,
> {
    if filter_status && row_i64(row, "status"@) != Some(0i64) {
        None
    } else {
        match (row_i64(row, "hostid"@), row_text(row, "host"@)) {
            (Some(id), Some(h)) => {
                if with_name {
                    match row_text(row, "name"@) {
                        Some(n) => Some((HostV { hostid: id, host: h, name: n })),
                        None => None,
                    }
                } else {
                    Some((HostV { hostid: id, host: h, name: Seq::empty() }))
                }
            },
            _ => None,
        }
    }
}

/// Some row among the first `upto` denotes exactly the host `h`.
pub open spec fn host_from_rows(
    rows: Seq<Seq<RowCellV>>,
    upto: int,
    h: HostV,
    filter_status: bool,
    with_name: bool,
) -> bool {
    exists|k: int|
        0 <= k < upto && #[trigger] spec_host_of_row(rows[k], filter_status, with_name) == Some(h)
}

/// `out` holds a host whose view is `h`.
pub open spec fn has_host(out: Seq<Host>, h: HostV) -> bool {
    exists|j: int| 0 <= j < out.len() && #[trigger] out[j]@ == h
}

/// `out` is exactly the deduplicated set of hosts the first `upto` rows
/// denote: free of duplicates, every entry from some row, and every
/// row's host present.
pub open spec fn hosts_result_upto(
    out: Seq<Host>,
    rows: Seq<Seq<RowCellV>>,
    upto: int,
    filter_status: bool,
    with_name: bool,
) -> bool {
    &&& (forall|i: int, j: int| 0 <= i < j < out.len() ==> out[i]@ != out[j]@)
    &&& (forall|j: int| #![trigger out[j]]
        0 <= j < out.len() ==> host_from_rows(rows, upto, out[j]@, filter_status, with_name))
    &&& (forall|k: int|
        0 <= k < upto ==> match #[trigger] spec_host_of_row(rows[k], filter_status, with_name) {
            Some(h) => has_host(out, h),
            None => true,
        })
}

/// `out` is exactly the deduplicated set of hosts the rows denote.
pub open spec fn spec_hosts_result(
    out: Seq<Host>,
    rows: Seq<Seq<RowCellV>>,
    filter_status: bool,
    with_name: bool,
) -> bool {
    hosts_result_upto(out, rows, rows.len() as int, filter_status, with_name)
}

/// Appending to a host list keeps every host it held, and adds the new one.
proof fn lemma_has_host_push(prev: Seq<Host>, x: Host)
    ensures
        forall|h: HostV| #[trigger] has_host(prev, h) ==> has_host(prev.push(x), h),
        has_host(prev.push(x), x@),
{
    assert forall|h: HostV| #[trigger] has_host(prev, h) implies has_host(prev.push(x), h) by {
        let j = choose|j: int| 0 <= j < prev.len() && #[trigger] prev[j]@ == h;
        assert(prev.push(x)[j]@ == h);
    }
    assert(prev.push(x)[prev.len() as int]@ == x@);
}

/// Copies a host.
fn clone_host(a: &Host) -> (r: Host)
    ensures
        r@ == a@,
{
    Host { hostid: a.hostid, host: a.host.clone(), name: a.name.clone() }
}

/// Compares two hosts field by field.
fn host_eq(a: &Host, b: &Host) -> (r: bool)
    ensures
        r == (a@ == b@),
{
    a.hostid == b.hostid && str_eq(a.host.as_str(), b.host.as_str()) && str_eq(
        a.name.as_str(),
        b.name.as_str(),
    )
}

/// `v` already holds a host equal to `h`.
fn contains_host(v: &Vec<Host>, h: &Host) -> (r: bool)
    ensures
        r == has_host(v@, h@),
{
    let mut i: usize = 0;
    while i < v.len()
        invariant
            i <= v@.len(),
            forall|j: int| 0 <= j < i ==> v@[j]@ != h@,
        decreases v@.len() - i,
    {
        if host_eq(&v[i], h) {
            return true;
        }
        i += 1;
    }
    false
}

impl Host {
    /// Builds a host record from its parts.
    pub fn new(hostid: i64, host: String, name: String) -> (r: Self)
        ensures
            r@ == (HostV { hostid, host: host@, name: name@ }),
    {
        Host { hostid, host, name }
    }

    /// Reduces tabulated rows to the deduplicated set of enabled hosts.
    /// `filter_status` keeps only rows whose `status` is 0; `with_name`
    /// also reads the `name` column for the display name.
    pub fn from(data: &Vec<Row>, filter_status: bool, with_name: bool) -> (r: Vec<Host>)
        ensures
            spec_hosts_result(r@, rows_seq(data@), filter_status, with_name),
    {
        let ghost rows = rows_seq(data@);
        let mut out: Vec<Host> = Vec::new();
        let mut k: usize = 0;
        while k < data.len()
            invariant
                k <= data@.len(),
                rows == rows_seq(data@),
                rows.len() == data@.len(),
                hosts_result_upto(out@, rows, k as int, filter_status, with_name),
            decreases data@.len() - k,
        {
            let row = &data[k];
            let cand = host_of_row(row, filter_status, with_name);
            proof {
                assert(rows[k as int] == data@[k as int]@);
            }
            let ghost prev = out@;
            match cand {
                Some(h) => {
                    let ghost hv = h@;
                    if !contains_host(&out, &h) {
                        out.push(h);
                        proof {
                            lemma_has_host_push(prev, h);
                            assert(out@ == prev.push(h));
                            assert(out@[prev.len() as int]@ == hv);
                            assert forall|j: int| #![trigger out@[j]]
                                0 <= j < out@.len() implies host_from_rows(
                                rows,
                                k + 1,
                                out@[j]@,
                                filter_status,
                                with_name,
                            ) by {
                                if j < prev.len() {
                                    assert(out@[j] == prev[j]);
                                } else {
                                    assert(out@[j]@ == hv);
                                    assert(spec_host_of_row(rows[k as int], filter_status, with_name)
                                        == Some(hv));
                                }
                            }
                            assert forall|i: int, j: int|
                                0 <= i < j < out@.len() implies out@[i]@ != out@[j]@ by {
                                if j < prev.len() {
                                    assert(out@[i] == prev[i] && out@[j] == prev[j]);
                                } else {
                                    assert(out@[i] == prev[i] && out@[j]@ == hv);
                                    assert(!has_host(prev, hv));
                                }
                            }
                        }
                    } else {
                        proof {
                            lemma_has_host_push(prev, h);
                        }
                    }
                },
                None => {},
            }
            k += 1;
        }
        out
    }
}

/// Extracts the host one tabulated row denotes, if any.
fn host_of_row(row: &Row, filter_status: bool, with_name: bool) -> (r: Option<Host>)
    ensures
        match r {
            Some(h) => spec_host_of_row(row@, filter_status, with_name) == Some(h@),
            None => spec_host_of_row(row@, filter_status, with_name) is None,
        },
{
    if filter_status {
        let status_ok = match row_find(row, "status") {
            Some(CellValue::Int(v)) => v == 0,
            _ => false,
        };
        if !status_ok {
            return None;
        }
    }
    let id = match row_find(row, "hostid") {
        Some(CellValue::Int(v)) => v,
        _ => {
            return None;
        },
    };
    let h = match row_find(row, "host") {
        Some(CellValue::Text(t)) => t,
        _ => {
            return None;
        },
    };
    if with_name {
        match row_find(row, "name") {
            Some(CellValue::Text(n)) => Some(Host { hostid: id, host: h, name: n }),
            _ => None,
        }
    } else {
        let name = String::new();
        assert(name@ =~= Seq::<char>::empty());
        Some(Host { hostid: id, host: h, name })
    }
}

pub open spec fn strs_seq(v: Seq<String>) -> Seq<Seq<char>> {
    Seq::new(v.len(), |i: int| v[i]@)
}

/// An item key compressed by the separator tokens, in order: each step
/// keeps only what stands before the first occurrence of that token in
/// what the earlier steps left.
pub open spec fn compress_key(s: Seq<char>, toks: Seq<Seq<char>>) -> Seq<char>
    decreases toks.len(),
{
    if toks.len() == 0 {
        s
    } else {
        compress_key(split_first(s, toks[0]), toks.subrange(1, toks.len() as int))
    }
}

/// A monitored item row: its ids, its (possibly compressed) key, and its
/// polling delay in seconds.
#[derive(Debug)]
pub struct Item {
    pub itemid: Option<i64>,
    pub hostid: i64,
    pub key_: String,
    pub delay: u32,
}

pub struct ItemV {
    pub itemid: Option<i64>,
    pub hostid: i64,
    pub key_: Seq<char>,
    pub delay: u32,
}

impl View for Item {
    type V = ItemV;

    open spec fn view(&self) -> ItemV {
        ItemV { itemid: self.itemid, hostid: self.hostid, key_: self.key_@, delay: self.delay }
    }
}

/// The item a tabulated row denotes, if any. With `filter_status` only a
/// row whose `status` cell is the integer 0 counts; the `delay` cell must
/// be a string whose parsed value is nonzero (a zero delay means disabled
/// polling and the row is discarded); the host id must be an integer cell
/// and the key a string cell, compressed with `toks`; with `with_itemid`
/// the item id must be an integer cell too, else it is left out.
pub open spec fn spec_item_of_row(
    row: Seq<RowCellV>,
    toks: Seq<Seq<char>>,
    filter_status: bool,
    with_itemid: bool,
) -> Option<ItemV> {
    if filter_status && row_i64(row, "status"@) != Some(0i64) {
        None
    } else {
        match row_text(row, "delay"@) {
            Some(d) => {
                let delay = spec_trans(d);
                if delay == 0 {
                    None
                } else {
                    match (row_i64(row, "hostid"@), row_text(row, "key_"@)) {
                        (Some(hid), Some(k)) => {
                            let key = compress_key(k, toks);
                            if with_itemid {
                                match row_i64(row, "itemid"@) {
                                    Some(iid) => Some(
                                        (ItemV {
                                            itemid: Some(iid),
                                            hostid: hid,
                                            key_: key,
                                            delay,
                                        }),
                                    ),
                                    None => None,
                                }
                            } else {
                                Some((ItemV { itemid: None, hostid: hid, key_: key, delay }))
                            }
                        },
                        _ => None,
                    }
                }
            },
            None => None,
        }
    }
}

/// Some row among the first `upto` denotes exactly the item `it`.
pub open spec fn item_from_rows(
    rows: Seq<Seq<RowCellV>>,
    upto: int,
    it: ItemV,
    toks: Seq<Seq<char>>,
    filter_status: bool,
    with_itemid: bool,
) -> bool {
    exists|k: int|
        0 <= k < upto && #[trigger] spec_item_of_row(rows[k], toks, filter_status, with_itemid)
            == Some(it)
}

/// `out` holds an item whose view is `it`.
pub open spec fn has_item(out: Seq<Item>, it: ItemV) -> bool {
    exists|j: int| 0 <= j < out.len() && #[trigger] out[j]@ == it
}

/// `out` is exactly the deduplicated set of items the first `upto` rows
/// denote: free of duplicates, every entry from some row, and every
/// row's item present.
pub open spec fn items_result_upto(
    out: Seq<Item>,
    rows: Seq<Seq<RowCellV>>,
    upto: int,
    toks: Seq<Seq<char>>,
    filter_status: bool,
    with_itemid: bool,
) -> bool {
    &&& (forall|i: int, j: int| 0 <= i < j < out.len() ==> out[i]@ != out[j]@)
    &&& (forall|j: int| #![trigger out[j]]
        0 <= j < out.len() ==> item_from_rows(rows, upto, out[j]@, toks, filter_status, with_itemid))
    &&& (forall|k: int|
        0 <= k < upto ==> match #[trigger] spec_item_of_row(rows[k], toks, filter_status, with_itemid) {
            Some(it) => has_item(out, it),
            None => true,
        })
}

/// `out` is exactly the deduplicated set of items the rows denote.
pub open spec fn spec_items_result(
    out: Seq<Item>,
    rows: Seq<Seq<RowCellV>>,
    toks: Seq<Seq<char>>,
    filter_status: bool,
    with_itemid: bool,
) -> bool {
    items_result_upto(out, rows, rows.len() as int, toks, filter_status, with_itemid)
}

/// Appending to an item list keeps every item it held, and adds the new one.
proof fn lemma_has_item_push(prev: Seq<Item>, x: Item)
    ensures
        forall|it: ItemV| #[trigger] has_item(prev, it) ==> has_item(prev.push(x), it),
        has_item(prev.push(x), x@),
{
    assert forall|it: ItemV| #[trigger] has_item(prev, it) implies has_item(prev.push(x), it) by {
        let j = choose|j: int| 0 <= j < prev.len() && #[trigger] prev[j]@ == it;
        assert(prev.push(x)[j]@ == it);
    }
    assert(prev.push(x)[prev.len() as int]@ == x@);
}

/// Copies an item.
fn clone_item(a: &Item) -> (r: Item)
    ensures
        r@ == a@,
{
    Item { itemid: a.itemid, hostid: a.hostid, key_: a.key_.clone(), delay: a.delay }
}

/// Compares two items field by field.
fn item_eq(a: &Item, b: &Item) -> (r: bool)
    ensures
        r == (a@ == b@),
{
    let ids = match (a.itemid, b.itemid) {
        (Some(x), Some(y)) => x == y,
        (None, None) => true,
        _ => false,
    };
    ids && a.hostid == b.hostid && a.delay == b.delay && str_eq(a.key_.as_str(), b.key_.as_str())
}

/// `v` already holds an item equal to `it`.
fn contains_item(v: &Vec<Item>, it: &Item) -> (r: bool)
    ensures
        r == has_item(v@, it@),
{
    let mut i: usize = 0;
    while i < v.len()
        invariant
            i <= v@.len(),
            forall|j: int| 0 <= j < i ==> v@[j]@ != it@,
        decreases v@.len() - i,
    {
        if item_eq(&v[i], it) {
            return true;
        }
        i += 1;
    }
    false
}

/// Applies the separator tokens to one key, in order.
fn compress_exec(key: String, compress: &Vec<String>) -> (r: String)
    ensures
        r@ == compress_key(key@, strs_seq(compress@)),
{
    let ghost orig = key@;
    let ghost toks = strs_seq(compress@);
    let mut k = key;
    let mut t: usize = 0;
    assert(toks.subrange(0, toks.len() as int) =~= toks);
    while t < compress.len()
        invariant
            t <= compress@.len(),
            toks == strs_seq(compress@),
            compress_key(orig, toks) == compress_key(k@, toks.subrange(t as int, toks.len() as int)),
        decreases compress@.len() - t,
    {
        let ghost before = k@;
        let next = split_prefix(k.as_str(), compress[t].as_str());
        k = next;
        t += 1;
        proof {
            let tail_old = toks.subrange(t - 1, toks.len() as int);
            let tail_new = toks.subrange(t as int, toks.len() as int);
            assert(tail_old[0] == toks[t - 1]);
            assert(tail_old.subrange(1, tail_old.len() as int) =~= tail_new);
            assert(compress_key(before, tail_old) == compress_key(k@, tail_new));
        }
    }
    assert(toks.subrange(t as int, toks.len() as int) =~= Seq::<Seq<char>>::empty());
    k
}

/// Extracts the item one tabulated row denotes, if any.
fn item_of_row(row: &Row, compress: &Vec<String>, filter_status: bool, with_itemid: bool) -> (r:
    Option<Item>)
    ensures
        match r {
            Some(it) => spec_item_of_row(row@, strs_seq(compress@), filter_status, with_itemid)
                == Some(it@),
            None => spec_item_of_row(row@, strs_seq(compress@), filter_status, with_itemid) is None,
        },
{
    if filter_status {
        let status_ok = match row_find(row, "status") {
            Some(CellValue::Int(v)) => v == 0,
            _ => false,
        };
        if !status_ok {
            return None;
        }
    }
    let d = match row_find(row, "delay") {
        Some(CellValue::Text(t)) => t,
        _ => {
            return None;
        },
    };
    let delay = trans(d.as_str());
    if delay == 0 {
        return None;
    }
    let hid = match row_find(row, "hostid") {
        Some(CellValue::Int(v)) => v,
        _ => {
            return None;
        },
    };
    let key_raw = match row_find(row, "key_") {
        Some(CellValue::Text(t)) => t,
        _ => {
            return None;
        },
    };
    let key = compress_exec(key_raw, compress);
    if with_itemid {
        match row_find(row, "itemid") {
            Some(CellValue::Int(iid)) => Some(
                Item { itemid: Some(iid), hostid: hid, key_: key, delay },
            ),
            _ => None,
        }
    } else {
        Some(Item { itemid: None, hostid: hid, key_: key, delay })
    }
}

impl Item {
    /// Builds an item record from its parts.
    pub fn new(itemid: Option<i64>, hostid: i64, key_: String, delay: u32) -> (r: Self)
        ensures
            r@ == (ItemV { itemid, hostid, key_: key_@, delay }),
    {
        Item { itemid, hostid, key_, delay }
    }

    /// Reduces tabulated rows to the deduplicated set of enabled items,
    /// compressing each key with the separator tokens in `compress`.
    /// `filter_status` keeps only rows whose `status` is 0; `with_itemid`
    /// also reads the `itemid` column.
    pub fn from(
        data: &Vec<Row>,
        compress: &Vec<String>,
        filter_status: bool,
        with_itemid: bool,
    ) -> (r: Vec<Item>)
        ensures
            spec_items_result(
                r@,
                rows_seq(data@),
                strs_seq(compress@),
                filter_status,
                with_itemid,
            ),
    {
        let ghost rows = rows_seq(data@);
        let ghost toks = strs_seq(compress@);
        let mut out: Vec<Item> = Vec::new();
        let mut k: usize = 0;
        while k < data.len()
            invariant
                k <= data@.len(),
                rows == rows_seq(data@),
                toks == strs_seq(compress@),
                rows.len() == data@.len(),
                items_result_upto(out@, rows, k as int, toks, filter_status, with_itemid),
            decreases data@.len() - k,
        {
            let row = &data[k];
            let cand = item_of_row(row, compress, filter_status, with_itemid);
            proof {
                assert(rows[k as int] == data@[k as int]@);
            }
            let ghost prev = out@;
            match cand {
                Some(it) => {
                    let ghost itv = it@;
                    if !contains_item(&out, &it) {
                        out.push(it);
                        proof {
                            lemma_has_item_push(prev, it);
                            assert(out@ == prev.push(it));
                            assert(out@[prev.len() as int]@ == itv);
                            assert forall|j: int| #![trigger out@[j]]
                                0 <= j < out@.len() implies item_from_rows(
                                rows,
                                k + 1,
                                out@[j]@,
                                toks,
                                filter_status,
                                with_itemid,
                            ) by {
                                if j < prev.len() {
                                    assert(out@[j] == prev[j]);
                                } else {
                                    assert(out@[j]@ == itv);
                                    assert(spec_item_of_row(
                                        rows[k as int],
                                        toks,
                                        filter_status,
                                        with_itemid,
                                    ) == Some(itv));
                                }
                            }
                            assert forall|i: int, j: int|
                                0 <= i < j < out@.len() implies out@[i]@ != out@[j]@ by {
                                if j < prev.len() {
                                    assert(out@[i] == prev[i] && out@[j] == prev[j]);
                                } else {
                                    assert(out@[i] == prev[i] && out@[j]@ == itv);
                                    assert(!has_item(prev, itv));
                                }
                            }
                        }
                    } else {
                        proof {
                            lemma_has_item_push(prev, it);
                        }
                    }
                },
                None => {},
            }
            k += 1;
        }
        out
    }
}

/// Item delay filter: every item of a reconciled set carries a nonzero
/// delay — a row whose delay specification parses to zero (disabled
/// polling) contributes no set member.
pub proof fn lemma_zero_delay_excluded(
    out: Seq<Item>,
    rows: Seq<Seq<RowCellV>>,
    toks: Seq<Seq<char>>,
    filter_status: bool,
    with_itemid: bool,
)
    requires
        spec_items_result(out, rows, toks, filter_status, with_itemid),
    ensures
        forall|j: int| #![trigger out[j]] 0 <= j < out.len() ==> out[j]@.delay != 0,
{
    assert forall|j: int| #![trigger out[j]] 0 <= j < out.len() implies out[j]@.delay != 0 by {
        assert(item_from_rows(rows, rows.len() as int, out[j]@, toks, filter_status, with_itemid));
        let k = choose|k: int|
            0 <= k < rows.len() && #[trigger] spec_item_of_row(
                rows[k],
                toks,
                filter_status,
                with_itemid,
            ) == Some(out[j]@);
    }
}

/// One host grouped with every item that polls on it.
#[derive(Debug)]
pub struct HostItem {
    pub host: Host,
    pub items: Vec<Item>,
}

pub struct HostItemV {
    pub host: HostV,
    pub items: Seq<ItemV>,
}

impl View for HostItem {
    type V = HostItemV;

    open spec fn view(&self) -> HostItemV {
        HostItemV {
            host: self.host@,
            items: Seq::new(self.items@.len(), |i: int| self.items@[i]@),
        }
    }
}

/// One item paired with its owning host.
#[derive(Debug)]
pub struct ItemHost {
    pub item: Item,
    pub host: Host,
}

pub struct ItemHostV {
    pub item: ItemV,
    pub host: HostV,
}

impl View for ItemHost {
    type V = ItemHostV;

    open spec fn view(&self) -> ItemHostV {
        ItemHostV { item: self.item@, host: self.host@ }
    }
}

pub open spec fn items_seq(v: Seq<Item>) -> Seq<ItemV> {
    Seq::new(v.len(), |i: int| v[i]@)
}

pub open spec fn hosts_seq(v: Seq<Host>) -> Seq<HostV> {
    Seq::new(v.len(), |i: int| v[i]@)
}

pub open spec fn item_hosts_seq(v: Seq<ItemHost>) -> Seq<ItemHostV> {
    Seq::new(v.len(), |i: int| v[i]@)
}

/// Of the first `k` items, those that poll on host `hid`, in order.
pub open spec fn items_with_upto(its: Seq<ItemV>, hid: i64, k: int) -> Seq<ItemV>
    decreases k,
{
    if k <= 0 {
        Seq::empty()
    } else {
        items_with_upto(its, hid, k - 1) + (if its[k - 1].hostid == hid {
            seq![its[k - 1]]
        } else {
            Seq::empty()
        })
    }
}

/// The items that poll on host `hid`, in order.
pub open spec fn items_with(its: Seq<ItemV>, hid: i64) -> Seq<ItemV> {
    items_with_upto(its, hid, its.len() as int)
}

/// The first host in the list, from position `j` on, with id `hid`.
pub open spec fn first_host_from(hs: Seq<HostV>, hid: i64, j: int) -> Option<HostV>
    decreases hs.len() - j,
{
    if j < 0 || j >= hs.len() {
        None
    } else if hs[j].hostid == hid {
        Some(hs[j])
    } else {
        first_host_from(hs, hid, j + 1)
    }
}

/// The first host in the list with id `hid`.
pub open spec fn first_host(hs: Seq<HostV>, hid: i64) -> Option<HostV> {
    first_host_from(hs, hid, 0)
}

/// The first `k` items each paired with the first host bearing their
/// host id; an item whose host is absent is dropped.
pub open spec fn join_ih_upto(hs: Seq<HostV>, its: Seq<ItemV>, k: int) -> Seq<ItemHostV>
    decreases k,
{
    if k <= 0 {
        Seq::empty()
    } else {
        join_ih_upto(hs, its, k - 1) + (match first_host(hs, its[k - 1].hostid) {
            Some(h) => seq![ItemHostV { item: its[k - 1], host: h }],
            None => Seq::empty(),
        })
    }
}

/// The items that poll on host `hid`, as owned records.
fn items_with_exec(items: &Vec<Item>, hid: i64) -> (r: Vec<Item>)
    ensures
        items_seq(r@) == items_with(items_seq(items@), hid),
{
    let ghost its = items_seq(items@);
    let mut out: Vec<Item> = Vec::new();
    let mut k: usize = 0;
    while k < items.len()
        invariant
            k <= items@.len(),
            its == items_seq(items@),
            items_seq(out@) == items_with_upto(its, hid, k as int),
        decreases items@.len() - k,
    {
        if items[k].hostid == hid {
            out.push(clone_item(&items[k]));
        }
        k += 1;
        assert(items_seq(out@) =~= items_with_upto(its, hid, k as int));
    }
    out
}

/// The first host in the list with id `hid`, as an owned record.
fn first_host_exec(hosts: &Vec<Host>, hid: i64) -> (r: Option<Host>)
    ensures
        match r {
            Some(h) => first_host(hosts_seq(hosts@), hid) == Some(h@),
            None => first_host(hosts_seq(hosts@), hid) is None,
        },
{
    let ghost hs = hosts_seq(hosts@);
    let mut j: usize = 0;
    while j < hosts.len()
        invariant
            j <= hosts@.len(),
            hs == hosts_seq(hosts@),
            first_host_from(hs, hid, 0) == first_host_from(hs, hid, j as int),
        decreases hosts@.len() - j,
    {
        if hosts[j].hostid == hid {
            return Some(clone_host(&hosts[j]));
        }
        j += 1;
    }
    None
}

/// Groups the items under their owning hosts: one group per host, in
/// host order, each holding exactly the items bearing that host's id,
/// in item order.
pub fn join_host_item(hosts: &Vec<Host>, items: &Vec<Item>) -> (r: Vec<HostItem>)
    ensures
        r@.len() == hosts@.len(),
        forall|i: int| #![trigger r@[i]]
            0 <= i < r@.len() ==> r@[i]@.host == hosts@[i]@ && r@[i]@.items == items_with(
                items_seq(items@),
                hosts@[i]@.hostid,
            ),
{
    let mut out: Vec<HostItem> = Vec::new();
    let mut k: usize = 0;
    while k < hosts.len()
        invariant
            k <= hosts@.len(),
            out@.len() == k,
            forall|i: int| #![trigger out@[i]]
                0 <= i < out@.len() ==> out@[i]@.host == hosts@[i]@ && out@[i]@.items == items_with(
                    items_seq(items@),
                    hosts@[i]@.hostid,
                ),
        decreases hosts@.len() - k,
    {
        let host = clone_host(&hosts[k]);
        let group = items_with_exec(items, host.hostid);
        let entry = HostItem { host, items: group };
        assert(entry@.items =~= items_with(items_seq(items@), hosts@[k as int]@.hostid));
        out.push(entry);
        k += 1;
    }
    out
}

/// Pairs each item with the first host bearing its host id, in item
/// order; an item whose host is absent from `hosts` is dropped.
pub fn join_item_host(hosts: &Vec<Host>, items: &Vec<Item>) -> (r: Vec<ItemHost>)
    ensures
        item_hosts_seq(r@) == join_ih_upto(
            hosts_seq(hosts@),
            items_seq(items@),
            items@.len() as int,
        ),
{
    let ghost hs = hosts_seq(hosts@);
    let ghost its = items_seq(items@);
    let mut out: Vec<ItemHost> = Vec::new();
    let mut k: usize = 0;
    while k < items.len()
        invariant
            k <= items@.len(),
            hs == hosts_seq(hosts@),
            its == items_seq(items@),
            item_hosts_seq(out@) == join_ih_upto(hs, its, k as int),
        decreases items@.len() - k,
    {
        match first_host_exec(hosts, items[k].hostid) {
            Some(h) => {
                let entry = ItemHost { item: clone_item(&items[k]), host: h };
                out.push(entry);
            },
            None => {},
        }
        k += 1;
        assert(item_hosts_seq(out@) =~= join_ih_upto(hs, its, k as int));
    }
    out
}

/// The proxy's identity toward the server: its logical name and the
/// endpoint it exchanges frames with.
#[derive(Debug)]
pub struct ZabbixProxy {
    pub name: String,
    pub proto: ZabbixProtocol,
}

impl ZabbixProxy {
    /// Builds a proxy handle from its name and the server's address.
    pub fn new(name: &str, server: &str, port: u16) -> (r: Self)
        ensures
            r.name@ == name@,
            r.proto.server@ == server@,
            r.proto.port == port,
    {
        ZabbixProxy { name: name.to_owned(), proto: ZabbixProtocol::new(server, port) }
    }
}

/// Reconciles a whole configuration dump: tabulates the `hosts` and
/// `items` sections and reduces them to deduplicated host and item sets.
pub fn reconcile_config(
    hosts_fields: &ConfigFields,
    hosts_data: &ConfigData,
    items_fields: &ConfigFields,
    items_data: &ConfigData,
    compress: &Vec<String>,
    filter_status: bool,
    with_name: bool,
    with_itemid: bool,
) -> (r: (Vec<Host>, Vec<Item>))
    ensures
        spec_hosts_result(
            r.0@,
            spec_tabulate(hosts_fields@, hosts_data@),
            filter_status,
            with_name,
        ),
        spec_items_result(
            r.1@,
            spec_tabulate(items_fields@, items_data@),
            strs_seq(compress@),
            filter_status,
            with_itemid,
        ),
{
    let hrows = get_item(hosts_fields, hosts_data);
    let irows = get_item(items_fields, items_data);
    let h = Host::from(&hrows, filter_status, with_name);
    let i = Item::from(&irows, compress, filter_status, with_itemid);
    (h, i)
}

} // verus!
