//! The rules that turn one reading of the host into chart values and table
//! rows.

use crate::text::{decimal, lemma_table_push, push_decimal};
use vstd::prelude::*;

verus! {

/// What the memory ratio is multiplied by to give its chart value: ten,
/// counted in thousandths.
pub const MEMORY_UNIT: u32 = 10_000;

/// What the swap ratio is multiplied by to give its chart value: one,
/// counted in thousandths.
pub const SWAP_UNIT: u32 = 1_000;

/// One mounted volume, as the host reports it.
#[derive(Debug, Clone, PartialEq, Eq)]
pub struct Disk {
    pub name: String,
    pub mount_point: String,
    /// Free space in bytes.
    pub available_space: u64,
}

/// The chart value of a utilisation `u` percent is `(u - 50) / 10`. With the
/// utilisation in hundredths of a percent and the chart value in
/// thousandths, that is the utilisation less five thousand.
pub open spec fn usage_chart_value(usage: u32) -> int {
    usage - 5000
}

/// The chart value of one core's utilisation, given in hundredths of a
/// percent.
pub fn cpu_chart_value(usage: u32) -> (v: i128)
    ensures
        v == usage_chart_value(usage),
{
    usage as i128 - 5000
}

/// The share `free / total` in units of `1 / unit`, rounded down; zero where
/// `total` is zero.
pub open spec fn ratio(free: nat, total: nat, unit: nat) -> nat {
    if total == 0 {
        0
    } else {
        (free * unit) / total
    }
}

/// A share of a total of zero is zero, whatever is free and whatever the
/// unit; a share of anything else is the quotient, rounded down.
pub proof fn lemma_ratio(free: nat, total: nat, unit: nat)
    ensures
        ratio(free, 0, unit) == 0,
        total > 0 ==> ratio(free, total, unit) * total <= free * unit < (ratio(free, total, unit)
            + 1) * total,
{
    if total > 0 {
        vstd::arithmetic::div_mod::lemma_fundamental_div_mod((free * unit) as int, total as int);
        vstd::arithmetic::div_mod::lemma_mod_bound((free * unit) as int, total as int);
        assert(total * ((free * unit) / total) == ((free * unit) / total) * total)
            by (nonlinear_arith);
        assert((ratio(free, total, unit) + 1) * total == ratio(free, total, unit) * total + total)
            by (nonlinear_arith);
    }
}

/// The free share of a resource as a chart value: `free / total` in units of
/// `1 / unit`. A total of zero gives zero.
pub fn free_ratio(free: u64, total: u64, unit: u32) -> (v: i128)
    ensures
        v == ratio(free as nat, total as nat, unit as nat),
{
    if total == 0 {
        0
    } else {
        assert(free * unit <= 0xffff_ffff_ffff_ffff * 0xffff_ffff) by (nonlinear_arith)
            requires
                free <= 0xffff_ffff_ffff_ffff,
                unit <= 0xffff_ffff,
        ;
        let scaled: u128 = free as u128 * unit as u128;
        assert(scaled / (total as u128) <= scaled) by (nonlinear_arith)
            requires
                total >= 1,
        ;
        (scaled / total as u128) as i128
    }
}

/// The bytes received over all interfaces, each given as `(received,
/// transmitted)`.
pub open spec fn received_total(interfaces: Seq<(u64, u64)>) -> nat
    decreases interfaces.len(),
{
    if interfaces.len() == 0 {
        0
    } else {
        received_total(interfaces.drop_last()) + interfaces.last().0 as nat
    }
}

/// The bytes transmitted over all interfaces, each given as `(received,
/// transmitted)`.
pub open spec fn transmitted_total(interfaces: Seq<(u64, u64)>) -> nat
    decreases interfaces.len(),
{
    if interfaces.len() == 0 {
        0
    } else {
        transmitted_total(interfaces.drop_last()) + interfaces.last().1 as nat
    }
}

/// A total over `n` interfaces is at most `n` times what one counter holds.
pub proof fn lemma_totals_bound(interfaces: Seq<(u64, u64)>)
    ensures
        received_total(interfaces) <= interfaces.len() * u64::MAX,
        transmitted_total(interfaces) <= interfaces.len() * u64::MAX,
    decreases interfaces.len(),
{
    if interfaces.len() > 0 {
        lemma_totals_bound(interfaces.drop_last());
        assert((interfaces.len() - 1) * u64::MAX + u64::MAX == interfaces.len() * u64::MAX)
            by (nonlinear_arith);
    }
}

/// Sums the bytes received and transmitted over all interfaces. The totals
/// are raw counters: no rate is derived from them. They are exact: a
/// `u128` holds the sum of as many `u64` as a list can have.
pub fn set_network_section(interfaces: &Vec<(u64, u64)>) -> (totals: (u128, u128))
    ensures
        totals.0 == received_total(interfaces@),
        totals.1 == transmitted_total(interfaces@),
{
    let mut rx_val: u128 = 0;
    let mut tx_val: u128 = 0;
    let n: usize = interfaces.len();
    let mut i: usize = 0;
    while i < n
        invariant
            i <= n == interfaces@.len(),
            rx_val == received_total(interfaces@.take(i as int)),
            tx_val == transmitted_total(interfaces@.take(i as int)),
        decreases n - i,
    {
        let (rx, tx) = interfaces[i];
        proof {
            assert(interfaces@.take(i + 1).drop_last() =~= interfaces@.take(i as int));
            lemma_totals_bound(interfaces@.take(i + 1));
            assert((i + 1) * u64::MAX <= u64::MAX * u64::MAX) by (nonlinear_arith)
                requires
                    0 <= i + 1 <= u64::MAX,
            ;
        }
        rx_val = rx_val + rx as u128;
        tx_val = tx_val + tx as u128;
        i += 1;
    }
    assert(interfaces@.take(n as int) =~= interfaces@);
    (rx_val, tx_val)
}

/// The free space of a volume as a table cell: whole millions of bytes with
/// the suffix `MB`, or, where those are more than a thousand, whole
/// thousands of them with the suffix `GB`. There is no larger unit.
pub open spec fn space_label(available: nat) -> Seq<char> {
    let space = available / 1_000_000;
    if space > 1000 {
        decimal(space / 1000) + seq!['G', 'B']
    } else {
        decimal(space) + seq!['M', 'B']
    }
}

/// The table row of one volume: name, mount point, free space.
pub open spec fn disk_row(disk: Disk) -> Seq<Seq<char>> {
    seq![disk.name@, disk.mount_point@, space_label(disk.available_space as nat)]
}

/// The table of all volumes, one row each, in the order given.
pub open spec fn disk_rows(disks: Seq<Disk>) -> Seq<Seq<Seq<char>>> {
    Seq::new(disks.len(), |i: int| disk_row(disks[i]))
}

/// The free space of a volume as a table cell.
pub fn space_cell(available: u64) -> (cell: String)
    ensures
        cell@ == space_label(available as nat),
{
    let mut cell = String::new();
    let space: u64 = available / 1_000_000;
    if space > 1000 {
        push_decimal(&mut cell, space / 1000);
        cell.push('G');
    } else {
        push_decimal(&mut cell, space);
        cell.push('M');
    }
    cell.push('B');
    assert(cell@ =~= space_label(available as nat));
    cell
}

/// Builds the disk table: one row of name, mount point and free space for
/// each volume, in the order given.
pub fn set_disk_section(disks: &Vec<Disk>) -> (rows: Vec<Vec<String>>)
    ensures
        rows.deep_view() == disk_rows(disks@),
{
    let mut rows: Vec<Vec<String>> = Vec::new();
    let n: usize = disks.len();
    let mut i: usize = 0;
    while i < n
        invariant
            i <= n == disks@.len(),
            rows.deep_view() == disk_rows(disks@.take(i as int)),
        decreases n - i,
    {
        let disk = &disks[i];
        let mut row: Vec<String> = Vec::new();
        row.push(disk.name.clone());
        row.push(disk.mount_point.clone());
        row.push(space_cell(disk.available_space));
        assert(row.deep_view() =~= disk_row(disks@[i as int]));
        let ghost before = rows;
        rows.push(row);
        proof {
            lemma_table_push(before, rows, row);
        }
        assert(rows.deep_view() =~= disk_rows(disks@.take(i + 1)));
        i += 1;
    }
    assert(disks@.take(n as int) =~= disks@);
    rows
}

/// The place of the first colon in `line`, or its length where it has none.
pub open spec fn colon_index(line: Seq<char>) -> int
    decreases line.len(),
{
    if line.len() == 0 || line[0] == ':' {
        0
    } else {
        1 + colon_index(line.drop_first())
    }
}

/// The name cell of a sensor line: the label, which is what stands before
/// the first colon, or the whole line where it has none.
pub open spec fn sensor_name(line: Seq<char>) -> Seq<char> {
    line.take(colon_index(line))
}

/// The reading cell of a sensor line: what stands after the first colon. It
/// is empty where the line has no colon.
pub open spec fn sensor_reading(line: Seq<char>) -> Seq<char> {
    if colon_index(line) < line.len() {
        line.skip(colon_index(line) + 1)
    } else {
        Seq::empty()
    }
}

/// The table row of one sensor line: name, reading.
pub open spec fn sensor_row(line: Seq<char>) -> Seq<Seq<char>> {
    seq![sensor_name(line), sensor_reading(line)]
}

/// The table of all sensor lines, one row each, in the order given.
pub open spec fn sensor_rows(lines: Seq<String>) -> Seq<Seq<Seq<char>>> {
    Seq::new(lines.len(), |i: int| sensor_row(lines[i]@))
}

/// The first colon of a line is where a colon stands with none before it,
/// and the end of a line that has none.
pub proof fn lemma_colon_index(line: Seq<char>, i: int)
    requires
        0 <= i <= line.len(),
        forall|j: int| 0 <= j < i ==> line[j] != ':',
        i < line.len() ==> line[i] == ':',
    ensures
        colon_index(line) == i,
    decreases i,
{
    if i > 0 {
        let rest = line.drop_first();
        assert forall|j: int| 0 <= j < i - 1 implies rest[j] != ':' by {
            assert(rest[j] == line[j + 1]);
        }
        lemma_colon_index(rest, i - 1);
    }
}

/// A sensor line is its name, then a colon where it has one, then its
/// reading; the name holds no colon.
pub proof fn lemma_sensor_line(line: Seq<char>)
    ensures
        0 <= colon_index(line) <= line.len(),
        forall|j: int| 0 <= j < sensor_name(line).len() ==> sensor_name(line)[j] != ':',
        colon_index(line) < line.len() ==> line == sensor_name(line) + seq![':']
            + sensor_reading(line),
        colon_index(line) == line.len() ==> line == sensor_name(line) && sensor_reading(line)
            == Seq::<char>::empty(),
    decreases line.len(),
{
    if line.len() > 0 && line[0] != ':' {
        let rest = line.drop_first();
        lemma_sensor_line(rest);
        let i = colon_index(line);
        assert forall|j: int| 0 <= j < sensor_name(line).len() implies sensor_name(line)[j]
            != ':' by {
            if j > 0 {
                assert(sensor_name(line)[j] == sensor_name(rest)[j - 1]);
            }
        }
    }
    if colon_index(line) < line.len() {
        assert(line[colon_index(line)] == ':') by {
            lemma_colon_is_colon(line);
        }
        assert(line =~= sensor_name(line) + seq![':'] + sensor_reading(line));
    } else {
        assert(line =~= sensor_name(line));
    }
}

/// Where the first colon of a line is said to be, a colon stands.
proof fn lemma_colon_is_colon(line: Seq<char>)
    ensures
        0 <= colon_index(line) <= line.len(),
        colon_index(line) < line.len() ==> line[colon_index(line)] == ':',
    decreases line.len(),
{
    if line.len() > 0 && line[0] != ':' {
        lemma_colon_is_colon(line.drop_first());
    }
}

/// Splits one sensor line, of the form `label: reading`, into its row.
pub fn split_sensor_line(line: &str) -> (row: Vec<String>)
    ensures
        row.deep_view() == sensor_row(line@),
{
    let n: usize = line.unicode_len();
    let mut name = String::new();
    let mut i: usize = 0;
    while i < n && line.get_char(i) != ':'
        invariant
            i <= n == line@.len(),
            forall|j: int| 0 <= j < i ==> line@[j] != ':',
            name@ == line@.take(i as int),
        decreases n - i,
    {
        name.push(line.get_char(i));
        assert(name@ =~= line@.take(i + 1));
        i += 1;
    }
    proof {
        lemma_colon_index(line@, i as int);
    }
    let mut reading = String::new();
    if i < n {
        let ghost from: int = i + 1;
        i += 1;
        assert(line@.subrange(from, from) =~= Seq::<char>::empty());
        while i < n
            invariant
                0 <= from <= i <= n == line@.len(),
                reading@ == line@.subrange(from, i as int),
            decreases n - i,
        {
            reading.push(line.get_char(i));
            assert(reading@ =~= line@.subrange(from, i + 1));
            i += 1;
        }
        assert(line@.subrange(from, n as int) =~= line@.skip(from));
    }
    let mut row: Vec<String> = Vec::new();
    row.push(name);
    row.push(reading);
    assert(row.deep_view() =~= sensor_row(line@));
    row
}

/// Builds the temperature table: one row of name and reading for each
/// sensor line, in the order given.
pub fn set_temp_section(lines: &Vec<String>) -> (rows: Vec<Vec<String>>)
    ensures
        rows.deep_view() == sensor_rows(lines@),
{
    let mut rows: Vec<Vec<String>> = Vec::new();
    let n: usize = lines.len();
    let mut i: usize = 0;
    while i < n
        invariant
            i <= n == lines@.len(),
            rows.deep_view() == sensor_rows(lines@.take(i as int)),
        decreases n - i,
    {
        let row = split_sensor_line(lines[i].as_str());
        let ghost before = rows;
        rows.push(row);
        proof {
            lemma_table_push(before, rows, row);
        }
        assert(rows.deep_view() =~= sensor_rows(lines@.take(i + 1)));
        i += 1;
    }
    assert(lines@.take(n as int) =~= lines@);
    rows
}

} // verus!
