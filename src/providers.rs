use vstd::prelude::*;

use crate::render::{is_digit, parse_integer, parse_integer_exec, replace_all, replace_all_exec};
use crate::sensor::{SensorType, SensorValue};
use crate::strings::{
    contains, contains_exec, ends_with, ends_with_exec, split, split_on, starts_with,
    starts_with_exec, strings_view, trim, trimmed,
};

verus! {

/// Units of `pretty_bytes`, by power of 1024.
pub open spec fn byte_unit(k: nat) -> Seq<char> {
    seq!["B"@, "KB"@, "MB"@, "GB"@, "TB"@, "PB"@, "EB"@, "ZB"@, "YB"@][k as int]
}

pub open spec fn pow1024(k: nat) -> nat
    decreases k,
{
    if k == 0 {
        1
    } else {
        1024 * pow1024((k - 1) as nat)
    }
}

/// Number of times `v` bytes can be divided by 1024 while the quotient stays above 1024.
pub open spec fn unit_index_from(v: nat, k: nat) -> nat
    decreases 8 - k,
{
    if k < 8 && v > pow1024(k + 1) {
        unit_index_from(v, k + 1)
    } else {
        k
    }
}

pub open spec fn unit_index(v: nat) -> nat {
    unit_index_from(v, 0)
}

pub open spec fn digit_char(d: nat) -> char {
    seq!['0', '1', '2', '3', '4', '5', '6', '7', '8', '9'][d as int]
}

/// Decimal text of a natural number.
pub open spec fn decimal(n: nat) -> Seq<char>
    decreases n,
{
    if n < 10 {
        seq![digit_char(n)]
    } else {
        decimal(n / 10).push(digit_char(n % 10))
    }
}

/// Decimal text of at least two digits.
pub open spec fn pad2(n: nat) -> Seq<char> {
    if n < 10 {
        seq!['0', digit_char(n)]
    } else {
        decimal(n)
    }
}

/// `n / d` rounded to an integer, ties to even.
pub open spec fn round_half_even(n: nat, d: nat) -> nat
    recommends
        d > 0,
{
    let q = n / d;
    let r = n % d;
    if 2 * r > d || (2 * r == d && q % 2 == 1) {
        q + 1
    } else {
        q
    }
}

/// Hundredths of `v / 1024^k`, rounded half to even.
pub open spec fn pretty_hundredths(v: nat) -> nat {
    round_half_even(v * 100, pow1024(unit_index(v)))
}

/// Text of a number of hundredths with two decimals.
pub open spec fn two_decimals(h: nat) -> Seq<char> {
    decimal(h / 100) + seq!['.'] + pad2(h % 100)
}

fn digit_str(d: u64) -> (r: String)
    requires
        d < 10,
    ensures
        r@ == seq![digit_char(d as nat)],
{
    let digits = "0123456789";
    proof {
        reveal_strlit("0123456789");
    }
    let r = String::from_str(digits.substring_char(d as usize, (d + 1) as usize));
    assert(r@ =~= seq![digit_char(d as nat)]);
    r
}

/// Decimal text of `n`.
pub fn decimal_string(n: u64) -> (r: String)
    ensures
        r@ == decimal(n as nat),
    decreases n,
{
    if n < 10 {
        digit_str(n)
    } else {
        let mut r = decimal_string(n / 10);
        let d = digit_str(n % 10);
        r.append(d.as_str());
        r
    }
}

/// Decimal text of `n`, padded with a leading zero to two digits.
pub fn pad2_string(n: u64) -> (r: String)
    ensures
        r@ == pad2(n as nat),
{
    if n < 10 {
        let mut r = String::from_str("0");
        proof {
            reveal_strlit("0");
        }
        let d = digit_str(n);
        r.append(d.as_str());
        assert(r@ =~= pad2(n as nat));
        r
    } else {
        decimal_string(n)
    }
}

fn unit_str(k: usize) -> (r: String)
    requires
        k < 9,
    ensures
        r@ == byte_unit(k as nat),
{
    proof {
        reveal_strlit("B");
        reveal_strlit("KB");
        reveal_strlit("MB");
        reveal_strlit("GB");
        reveal_strlit("TB");
        reveal_strlit("PB");
        reveal_strlit("EB");
        reveal_strlit("ZB");
        reveal_strlit("YB");
    }
    if k == 0 {
        String::from_str("B")
    } else if k == 1 {
        String::from_str("KB")
    } else if k == 2 {
        String::from_str("MB")
    } else if k == 3 {
        String::from_str("GB")
    } else if k == 4 {
        String::from_str("TB")
    } else if k == 5 {
        String::from_str("PB")
    } else if k == 6 {
        String::from_str("EB")
    } else if k == 7 {
        String::from_str("ZB")
    } else {
        String::from_str("YB")
    }
}

proof fn lemma_pow1024_grows(k: nat)
    ensures
        pow1024(k) >= 1,
        pow1024(k + 1) == 1024 * pow1024(k),
    decreases k,
{
    if k > 0 {
        lemma_pow1024_grows((k - 1) as nat);
    }
}

/// A byte count in human-readable form: the value with two decimals (rounded half to even)
/// and its unit, dividing by 1024 while the value stays above 1024 (`534.00`, `MB`).
pub fn pretty_bytes(value: u64) -> (r: (String, String))
    ensures
        r.0@ == two_decimals(pretty_hundredths(value as nat)),
        r.1@ == byte_unit(unit_index(value as nat)),
{
    let v = value as u128;
    let mut k: usize = 0;
    let mut d: u128 = 1;
    proof {
        lemma_pow1024_grows(0);
    }
    while k < 8 && v > d * 1024
        invariant
            k <= 8,
            d == pow1024(k as nat),
            d <= v || k == 0,
            v == value as nat,
            unit_index(value as nat) == unit_index_from(value as nat, k as nat),
        decreases 8 - k,
    {
        proof {
            lemma_pow1024_grows(k as nat);
        }
        d = d * 1024;
        k = k + 1;
    }
    proof {
        lemma_pow1024_grows(k as nat);
    }
    let n = v * 100;
    let q = n / d;
    let rem = n % d;
    let h = if 2 * rem > d || (2 * rem == d && q % 2 == 1) {
        q + 1
    } else {
        q
    };
    assert(h == pretty_hundredths(value as nat));
    assert(q <= n) by (nonlinear_arith)
        requires
            q == n / d,
            d >= 1,
    ;
    assert(h / 100 <= value);
    let mut text = decimal_string((h / 100) as u64);
    text.append(".");
    let frac = pad2_string((h % 100) as u64);
    text.append(frac.as_str());
    proof {
        reveal_strlit(".");
    }
    assert(text@ =~= two_decimals(pretty_hundredths(value as nat)));
    (text, unit_str(k))
}

/// `hh:mm:ss` of a number of seconds (hours not limited to two digits).
pub open spec fn clock_text(secs: nat) -> Seq<char> {
    pad2(secs / 3600) + seq![':'] + pad2((secs % 3600) / 60) + seq![':'] + pad2(secs % 60)
}

/// The system uptime reading.
pub fn uptime_sensor(uptime_secs: u64) -> (r: SensorValue)
    ensures
        r.id@ == "system_uptime"@,
        r.value@ == clock_text(uptime_secs as nat),
        r.label@ == "System uptime"@,
        r.unit@.len() == 0,
        r.sensor_type == SensorType::Text,
{
    let mut value = pad2_string(uptime_secs / 3600);
    value.append(":");
    let m = pad2_string((uptime_secs % 3600) / 60);
    value.append(m.as_str());
    value.append(":");
    let s = pad2_string(uptime_secs % 60);
    value.append(s.as_str());
    proof {
        reveal_strlit(":");
    }
    assert(value@ =~= clock_text(uptime_secs as nat));
    SensorValue {
        id: String::from_str("system_uptime"),
        value,
        unit: String::new(),
        label: String::from_str("System uptime"),
        sensor_type: SensorType::Text,
    }
}

/// Bytes per second from two counter readings taken 250 ms apart; a counter that went back
/// counts as no traffic.
pub open spec fn rate_per_second(before: u64, after: u64) -> nat {
    if after >= before {
        ((after - before) * 4) as nat
    } else {
        0
    }
}

fn rate_of(before: u64, after: u64) -> (r: u64)
    requires
        after < before || (after - before) * 4 <= u64::MAX,
    ensures
        r == rate_per_second(before, after),
{
    if after >= before {
        (after - before) * 4
    } else {
        0
    }
}

/// A reading of a rate in bytes per second, with the unit `<unit>/s`.
fn rate_sensor(id: String, label: String, bytes_per_second: u64) -> (r: SensorValue)
    ensures
        r.id == id,
        r.label == label,
        r.value@ == two_decimals(pretty_hundredths(bytes_per_second as nat)),
        r.unit@ == byte_unit(unit_index(bytes_per_second as nat)) + "/s"@,
        r.sensor_type == SensorType::Number,
{
    let (value, mut unit) = pretty_bytes(bytes_per_second);
    unit.append("/s");
    SensorValue { id, value, unit, label, sensor_type: SensorType::Number }
}

/// Concatenation of three strings.
pub fn concat3(a: &str, b: &str, c: &str) -> (r: String)
    ensures
        r@ == a@ + b@ + c@,
{
    let mut r = String::from_str(a);
    r.append(b);
    r.append(c);
    r
}

/// Download and upload rates of a network interface from its byte counters read 250 ms apart.
pub fn network_rate_sensors(
    iface_name: &str,
    rx_before: u64,
    tx_before: u64,
    rx_after: u64,
    tx_after: u64,
) -> (r: Vec<SensorValue>)
    requires
        rx_after < rx_before || (rx_after - rx_before) * 4 <= u64::MAX,
        tx_after < tx_before || (tx_after - tx_before) * 4 <= u64::MAX,
    ensures
        r@.len() == 2,
        r@[0].id@ == "network_rx_"@ + iface_name@,
        r@[0].label@ == iface_name@ + " download rate"@,
        r@[0].value@ == two_decimals(pretty_hundredths(rate_per_second(rx_before, rx_after))),
        r@[0].unit@ == byte_unit(unit_index(rate_per_second(rx_before, rx_after))) + "/s"@,
        r@[1].id@ == "network_tx_"@ + iface_name@,
        r@[1].label@ == iface_name@ + " upload rate"@,
        r@[1].value@ == two_decimals(pretty_hundredths(rate_per_second(tx_before, tx_after))),
        r@[1].unit@ == byte_unit(unit_index(rate_per_second(tx_before, tx_after))) + "/s"@,
        r@[0].sensor_type == SensorType::Number && r@[1].sensor_type == SensorType::Number,
{
    let rx = rate_sensor(
        concat3("network_rx_", iface_name, ""),
        concat3(iface_name, " download rate", ""),
        rate_of(rx_before, rx_after),
    );
    let tx = rate_sensor(
        concat3("network_tx_", iface_name, ""),
        concat3(iface_name, " upload rate", ""),
        rate_of(tx_before, tx_after),
    );
    proof {
        reveal_strlit("");
    }
    assert(("network_rx_"@ + iface_name@ + ""@) =~= "network_rx_"@ + iface_name@);
    assert((iface_name@ + " download rate"@ + ""@) =~= iface_name@ + " download rate"@);
    assert(("network_tx_"@ + iface_name@ + ""@) =~= "network_tx_"@ + iface_name@);
    assert((iface_name@ + " upload rate"@ + ""@) =~= iface_name@ + " upload rate"@);
    vec![rx, tx]
}

/// Bytes per second of a block device from its sector counters read 250 ms apart.
pub open spec fn disk_rate(before: u64, after: u64, sector_size: u64) -> nat {
    if after >= before {
        ((after - before) * sector_size * 4) as nat
    } else {
        0
    }
}

fn disk_rate_of(before: u64, after: u64, sector_size: u64) -> (r: u64)
    requires
        after < before || (after - before) * sector_size * 4 <= u64::MAX,
    ensures
        r == disk_rate(before, after, sector_size),
{
    if after >= before {
        let sectors = after - before;
        assert(sectors * sector_size <= sectors * sector_size * 4) by (nonlinear_arith);
        sectors * sector_size * 4
    } else {
        0
    }
}

/// Read and write rates of a block device from its sector counters read 250 ms apart.
pub fn disk_rw_sensors(
    disk_name: &str,
    read_before: u64,
    read_after: u64,
    write_before: u64,
    write_after: u64,
    sector_size: u64,
) -> (r: Vec<SensorValue>)
    requires
        read_after < read_before || (read_after - read_before) * sector_size * 4 <= u64::MAX,
        write_after < write_before || (write_after - write_before) * sector_size * 4 <= u64::MAX,
    ensures
        r@.len() == 2,
        r@[0].id@ == "disk_read_"@ + disk_name@,
        r@[0].label@ == "Disk "@ + disk_name@ + " read"@,
        r@[0].value@ == two_decimals(
            pretty_hundredths(disk_rate(read_before, read_after, sector_size)),
        ),
        r@[0].unit@ == byte_unit(unit_index(disk_rate(read_before, read_after, sector_size)))
            + "/s"@,
        r@[1].id@ == "disk_write_"@ + disk_name@,
        r@[1].label@ == "Disk "@ + disk_name@ + " write"@,
        r@[1].value@ == two_decimals(
            pretty_hundredths(disk_rate(write_before, write_after, sector_size)),
        ),
        r@[1].unit@ == byte_unit(unit_index(disk_rate(write_before, write_after, sector_size)))
            + "/s"@,
{
    let read = rate_sensor(
        concat3("disk_read_", disk_name, ""),
        concat3("Disk ", disk_name, " read"),
        disk_rate_of(read_before, read_after, sector_size),
    );
    let write = rate_sensor(
        concat3("disk_write_", disk_name, ""),
        concat3("Disk ", disk_name, " write"),
        disk_rate_of(write_before, write_after, sector_size),
    );
    proof {
        reveal_strlit("");
    }
    assert(("disk_read_"@ + disk_name@ + ""@) =~= "disk_read_"@ + disk_name@);
    assert(("disk_write_"@ + disk_name@ + ""@) =~= "disk_write_"@ + disk_name@);
    vec![read, write]
}

// ---- GPU (sysfs) ----
/// A DRM entry that is a graphics card: `card` followed by a name ending in a digit.
pub open spec fn is_card_name(name: Seq<char>) -> bool {
    starts_with(name, "card"@) && is_digit(name.last())
}

pub fn is_gpu_card_name(name: &str) -> (r: bool)
    ensures
        r == is_card_name(name@),
{
    proof {
        reveal_strlit("card");
    }
    if !starts_with_exec(name, "card") {
        return false;
    }
    let n = name.unicode_len();
    let u = name.get_char(n - 1) as u32;
    48 <= u && u <= 57
}

/// The digits of `s`, in order.
pub open spec fn digits_of(s: Seq<char>) -> Seq<char>
    decreases s.len(),
{
    if s.len() == 0 {
        Seq::empty()
    } else if is_digit(s.last()) {
        digits_of(s.drop_last()).push(s.last())
    } else {
        digits_of(s.drop_last())
    }
}

/// A line whose trimmed text ends with `*` marks the active entry of a multi-line sysfs file.
pub open spec fn is_active_line(l: Seq<char>) -> bool {
    trimmed(l).len() > 0 && trimmed(l).last() == '*'
}

pub open spec fn first_active_from(lines: Seq<Seq<char>>, i: int) -> Option<int>
    decreases lines.len() - i,
{
    if i < 0 || i >= lines.len() {
        None
    } else if is_active_line(lines[i]) {
        Some(i)
    } else {
        first_active_from(lines, i + 1)
    }
}

/// The value of the active entry (`1: 500Mhz *` gives `500`): the digits of the text between
/// the first and the second `:` of the first active line; `None` when that text does not exist.
pub open spec fn active_value(content: Seq<char>) -> Option<Seq<char>> {
    let lines = split_on(content, '\n');
    let line = match first_active_from(lines, 0) {
        Some(i) => lines[i],
        None => Seq::empty(),
    };
    let parts = split_on(line, ':');
    if parts.len() < 2 {
        None
    } else {
        Some(digits_of(trimmed(parts[1])))
    }
}

fn digits_only(s: &str) -> (r: String)
    ensures
        r@ == digits_of(s@),
{
    let n = s.unicode_len();
    let mut r = String::new();
    let mut i: usize = 0;
    while i < n
        invariant
            i <= n,
            n == s@.len(),
            r@ == digits_of(s@.take(i as int)),
        decreases n - i,
    {
        let c = s.get_char(i);
        assert(s@.take(i + 1).drop_last() =~= s@.take(i as int));
        assert(s@.take(i + 1).last() == c);
        let u = c as u32;
        if 48 <= u && u <= 57 {
            r.append(s.substring_char(i, i + 1));
            assert(s@.subrange(i as int, i + 1) =~= seq![c]);
            assert(r@ =~= digits_of(s@.take(i as int)).push(c));
        }
        i = i + 1;
    }
    assert(s@.take(n as int) =~= s@);
    r
}

fn find_active_line(lines: &Vec<String>) -> (r: Option<usize>)
    ensures
        match r {
            Some(k) => k < lines@.len() && first_active_from(strings_view(lines@), 0) == Some(
                k as int,
            ),
            None => first_active_from(strings_view(lines@), 0) is None,
        },
{
    let ghost lv = strings_view(lines@);
    let mut i: usize = 0;
    while i < lines.len()
        invariant
            i <= lines@.len(),
            lv == strings_view(lines@),
            first_active_from(lv, 0) == first_active_from(lv, i as int),
        decreases lines@.len() - i,
    {
        assert(lv[i as int] == lines@[i as int]@);
        let t = trim(lines[i].as_str());
        let tn = t.unicode_len();
        if tn > 0 && t.as_str().get_char(tn - 1) == '*' {
            return Some(i);
        }
        i = i + 1;
    }
    None
}

/// Reads the active entry of a multi-line sysfs file, as the number it shows.
pub fn get_active_line(file_content: &str) -> (r: Option<String>)
    ensures
        match r {
            Some(v) => active_value(file_content@) == Some(v@),
            None => active_value(file_content@) is None,
        },
{
    let lines = split(file_content, '\n');
    let ghost lv = strings_view(lines@);
    let found = find_active_line(&lines);
    let line: String = match found {
        Some(k) => {
            assert(lv[k as int] == lines@[k as int]@);
            lines[k].clone()
        },
        None => String::new(),
    };
    assert(line@ == match first_active_from(lv, 0) {
        Some(k) => lv[k],
        None => Seq::<char>::empty(),
    });
    let parts = split(line.as_str(), ':');
    if parts.len() < 2 {
        return None;
    }
    assert(strings_view(parts@)[1] == parts@[1]@);
    let t = trim(parts[1].as_str());
    Some(digits_only(t.as_str()))
}

/// A reading of a GPU sysfs file. Values in bytes (unit `B`) are given in human-readable
/// units; such a value that is not a number gives `None`.
pub fn gpu_card_sensor_value(
    card_name: &str,
    label: &str,
    file_name: &str,
    unit: &str,
    raw_value: String,
) -> (r: Option<SensorValue>)
    ensures
        unit@ != "B"@ ==> r is Some,
        unit@ == "B"@ ==> (r is Some <==> (parse_integer(raw_value@) matches Some(v) && v >= 0)),
        r matches Some(s) ==> {
            &&& s.id@ == "gpu_"@ + card_name@ + "_"@ + file_name@
            &&& s.label@ == "GPU "@ + card_name@ + " "@ + label@
            &&& s.sensor_type == SensorType::Number
            &&& if unit@ == "B"@ {
                let v = parse_integer(raw_value@)->0 as nat;
                s.value@ == two_decimals(pretty_hundredths(v)) && s.unit@ == byte_unit(
                    unit_index(v),
                )
            } else {
                s.value == raw_value && s.unit@ == unit@
            }
        },
{
    proof {
        reveal_strlit("B");
    }
    let mut id = concat3("gpu_", card_name, "_");
    id.append(file_name);
    let mut full_label = concat3("GPU ", card_name, " ");
    full_label.append(label);
    if crate::render::str_eq(unit, "B") {
        match parse_integer_exec(raw_value.as_str()) {
            Some(v) => {
                if v < 0 {
                    return None;
                }
                let (value, pretty_unit) = pretty_bytes(v as u64);
                Some(
                    SensorValue {
                        id,
                        value,
                        unit: pretty_unit,
                        label: full_label,
                        sensor_type: SensorType::Number,
                    },
                )
            },
            None => None,
        }
    } else {
        Some(
            SensorValue {
                id,
                value: raw_value,
                unit: String::from_str(unit),
                label: full_label,
                sensor_type: SensorType::Number,
            },
        )
    }
}

// ---- MangoHud ----
/// Unit of a MangoHud log column, from the end of its name.
pub open spec fn header_unit(h: Seq<char>) -> Seq<char> {
    if ends_with(h, "_load"@) || ends_with(h, "_used"@) {
        "%"@
    } else if ends_with(h, "_temp"@) {
        "°C"@
    } else if ends_with(h, "_clock"@) {
        "MHz"@
    } else if ends_with(h, "_power"@) {
        "W"@
    } else {
        ""@
    }
}

/// Unit of a MangoHud log column.
pub fn get_unit_by_header_name(header_name: &str) -> (r: String)
    ensures
        r@ == header_unit(header_name@),
{
    if ends_with_exec(header_name, "_load") || ends_with_exec(header_name, "_used") {
        String::from_str("%")
    } else if ends_with_exec(header_name, "_temp") {
        String::from_str("°C")
    } else if ends_with_exec(header_name, "_clock") {
        String::from_str("MHz")
    } else if ends_with_exec(header_name, "_power") {
        String::from_str("W")
    } else {
        String::from_str("")
    }
}

/// A reading of a MangoHud log column, with its value already formatted.
pub fn mangohud_sensor(header: &str, value: String) -> (r: SensorValue)
    ensures
        r.id@ == "mango_"@ + header@,
        r.label@ == "MangoHUD "@ + replace_all(header@, "_"@, " "@),
        r.unit@ == header_unit(header@),
        r.value == value,
        r.sensor_type == SensorType::Number,
{
    proof {
        reveal_strlit("_");
    }
    let spaced = replace_all_exec(header, "_", " ");
    let mut label = String::from_str("MangoHUD ");
    label.append(spaced.as_str());
    let mut id = String::from_str("mango_");
    id.append(header);
    SensorValue {
        id,
        value,
        unit: get_unit_by_header_name(header),
        label,
        sensor_type: SensorType::Number,
    }
}

/// A configuration line that sets the log folder: not a comment, names `output_folder`, and
/// has a `=`.
pub open spec fn is_folder_line(l: Seq<char>) -> bool {
    !starts_with(l, "#"@) && contains(l, "output_folder"@) && split_on(l, '=').len() >= 2
}

pub open spec fn folder_line_from(lines: Seq<Seq<char>>, i: int) -> Option<int>
    decreases lines.len() - i,
{
    if i < 0 || i >= lines.len() {
        None
    } else if is_folder_line(lines[i]) {
        Some(i)
    } else {
        folder_line_from(lines, i + 1)
    }
}

/// The log folder a MangoHud configuration sets: the trimmed text after the first `=` (up to
/// a second one) of the first line that sets it.
pub open spec fn output_folder(contents: Seq<char>) -> Option<Seq<char>> {
    let lines = split_on(contents, '\n');
    match folder_line_from(lines, 0) {
        Some(i) => Some(trimmed(split_on(lines[i], '=')[1])),
        None => None,
    }
}

/// Reads the log folder from the text of a MangoHud configuration file.
pub fn get_mangohud_log_dir_from_file(config_file_contents: &str) -> (r: Option<String>)
    ensures
        match r {
            Some(v) => output_folder(config_file_contents@) == Some(v@),
            None => output_folder(config_file_contents@) is None,
        },
{
    proof {
        reveal_strlit("#");
    }
    let lines = split(config_file_contents, '\n');
    let ghost lv = strings_view(lines@);
    let mut i: usize = 0;
    while i < lines.len()
        invariant
            i <= lines@.len(),
            lv == strings_view(lines@),
            lv == split_on(config_file_contents@, '\n'),
            folder_line_from(lv, 0) == folder_line_from(lv, i as int),
        decreases lines@.len() - i,
    {
        assert(lv[i as int] == lines@[i as int]@);
        let line = lines[i].as_str();
        if !starts_with_exec(line, "#") && contains_exec(line, "output_folder") {
            let parts = split(line, '=');
            if parts.len() >= 2 {
                assert(strings_view(parts@)[1] == parts@[1]@);
                return Some(trim(parts[1].as_str()));
            }
        }
        i = i + 1;
    }
    None
}

/// The MangoHud log folder: the user's configuration wins over the system one.
pub fn get_mangohud_log_dir(system_config: Option<&str>, user_config: Option<&str>) -> (r: Option<
    String,
>)
    ensures
        match r {
            Some(v) => (user_config matches Some(u) && output_folder(u@) == Some(v@)) || (
            (user_config is None || output_folder(user_config->0@) is None) && (
            system_config matches Some(s) && output_folder(s@) == Some(v@))),
            None => (user_config is None || output_folder(user_config->0@) is None) && (
            system_config is None || output_folder(system_config->0@) is None),
        },
{
    let user = match user_config {
        Some(u) => get_mangohud_log_dir_from_file(u),
        None => None,
    };
    if user.is_some() {
        return user;
    }
    match system_config {
        Some(s) => get_mangohud_log_dir_from_file(s),
        None => None,
    }
}

// ---- hardware monitor bridge ----
/// Kind and unit of a hardware-monitor sensor type.
pub open spec fn lhm_type_unit(t: Seq<char>) -> (SensorType, Seq<char>) {
    if t == "Temperature"@ {
        (SensorType::Number, "°C"@)
    } else if t == "Throughput"@ {
        (SensorType::Number, "B/s"@)
    } else if t == "Load"@ {
        (SensorType::Number, "%"@)
    } else if t == "Data"@ {
        (SensorType::Number, "B"@)
    } else if t == "Power"@ {
        (SensorType::Number, "W"@)
    } else if t == "SmallData"@ {
        (SensorType::Number, "MB"@)
    } else if t == "Clock"@ {
        (SensorType::Number, "MHz"@)
    } else if t == "Voltage"@ {
        (SensorType::Number, "V"@)
    } else if t == "Energy"@ {
        (SensorType::Number, "mWh"@)
    } else if t == "Control"@ {
        (SensorType::Number, "RPM"@)
    } else if t == "Level"@ {
        (SensorType::Number, "%"@)
    } else if t == "Factor"@ {
        (SensorType::Number, ""@)
    } else if t == "Current"@ {
        (SensorType::Number, "A"@)
    } else {
        (SensorType::Text, ""@)
    }
}

/// Kind and unit of a hardware-monitor sensor type.
pub fn match_sensor_type(sensor_type: &str) -> (r: (SensorType, String))
    ensures
        (r.0, r.1@) == lhm_type_unit(sensor_type@),
{
    let eq = |a: &str, b: &str| -> (r: bool)
        ensures
            r == (a@ == b@),
        { crate::render::str_eq(a, b) };
    let (t, u) = if eq(sensor_type, "Temperature") {
        (SensorType::Number, "°C")
    } else if eq(sensor_type, "Throughput") {
        (SensorType::Number, "B/s")
    } else if eq(sensor_type, "Load") {
        (SensorType::Number, "%")
    } else if eq(sensor_type, "Data") {
        (SensorType::Number, "B")
    } else if eq(sensor_type, "Power") {
        (SensorType::Number, "W")
    } else if eq(sensor_type, "SmallData") {
        (SensorType::Number, "MB")
    } else if eq(sensor_type, "Clock") {
        (SensorType::Number, "MHz")
    } else if eq(sensor_type, "Voltage") {
        (SensorType::Number, "V")
    } else if eq(sensor_type, "Energy") {
        (SensorType::Number, "mWh")
    } else if eq(sensor_type, "Control") {
        (SensorType::Number, "RPM")
    } else if eq(sensor_type, "Level") {
        (SensorType::Number, "%")
    } else if eq(sensor_type, "Factor") {
        (SensorType::Number, "")
    } else if eq(sensor_type, "Current") {
        (SensorType::Number, "A")
    } else {
        (SensorType::Text, "")
    };
    (t, String::from_str(u))
}

/// Label of a hardware-monitor sensor: the hardware and sensor names, and the sensor type
/// unless the name already holds it.
pub fn lhm_label(hardware_name: &str, name: &str, sensor_type: &str) -> (r: String)
    ensures
        r@ == if contains(name@, sensor_type@) {
            hardware_name@ + " "@ + name@
        } else {
            hardware_name@ + " "@ + name@ + " "@ + sensor_type@
        },
{
    let mut r = concat3(hardware_name, " ", name);
    if !contains_exec(name, sensor_type) {
        r.append(" ");
        r.append(sensor_type);
    }
    r
}

// ---- SMBIOS / DMI ----
fn reading(id: String, label: String, value: String, unit: &str, sensor_type: SensorType) -> (r:
    SensorValue)
    ensures
        r.id == id && r.label == label && r.value == value && r.unit@ == unit@ && r.sensor_type
            == sensor_type,
{
    SensorValue { id, value, unit: String::from_str(unit), label, sensor_type }
}

/// Readings of the mainboard's identity.
pub fn parse_base_board(manufacturer: &str, product: &str, version: &str) -> (r: Vec<SensorValue>)
    ensures
        r@.len() == 3,
        r@[0].id@ == "main_board_manufacturer"@ && r@[0].value@ == manufacturer@ && r@[0].label@
            == "Mainboard Manufacturer"@,
        r@[1].id@ == "main_board_product_name"@ && r@[1].value@ == product@ && r@[1].label@
            == "Mainboard Product Name"@,
        r@[2].id@ == "main_board_version"@ && r@[2].value@ == version@ && r@[2].label@
            == "Mainboard Version"@,
        forall|i: int|
            0 <= i < 3 ==> (#[trigger] r@[i]).sensor_type == SensorType::Text && r@[i].unit@.len()
                == 0,
{
    proof {
        reveal_strlit("");
    }
    vec![
        reading(
            String::from_str("main_board_manufacturer"),
            String::from_str("Mainboard Manufacturer"),
            String::from_str(manufacturer),
            "",
            SensorType::Text,
        ),
        reading(
            String::from_str("main_board_product_name"),
            String::from_str("Mainboard Product Name"),
            String::from_str(product),
            "",
            SensorType::Text,
        ),
        reading(
            String::from_str("main_board_version"),
            String::from_str("Mainboard Version"),
            String::from_str(version),
            "",
            SensorType::Text,
        ),
    ]
}

fn or_empty(v: Option<&str>) -> (r: String)
    ensures
        r@ == match v {
            Some(x) => x@,
            None => Seq::empty(),
        },
{
    match v {
        Some(x) => String::from_str(x),
        None => String::new(),
    }
}

/// Readings of the BIOS; a revision that is not known reads as empty text.
pub fn parse_bios(
    vendor: &str,
    bios_version: &str,
    release_date: &str,
    bios_revision: Option<&str>,
    firmware_revision: Option<&str>,
) -> (r: Vec<SensorValue>)
    ensures
        r@.len() == 5,
        r@[0].id@ == "bios_vendor"@ && r@[0].value@ == vendor@ && r@[0].label@ == "BIOS Vendor"@,
        r@[1].id@ == "bios_version"@ && r@[1].value@ == bios_version@ && r@[1].label@
            == "BIOS Version"@,
        r@[2].id@ == "bios_release_date"@ && r@[2].value@ == release_date@ && r@[2].label@
            == "BIOS Release Date"@,
        r@[3].id@ == "bios_revision"@ && r@[3].label@ == "BIOS Revision"@ && r@[3].value@
            == match bios_revision {
            Some(x) => x@,
            None => Seq::empty(),
        },
        r@[4].id@ == "firmware_revision"@ && r@[4].label@ == "Firmware Revision"@ && r@[4].value@
            == match firmware_revision {
            Some(x) => x@,
            None => Seq::empty(),
        },
        forall|i: int|
            0 <= i < 5 ==> (#[trigger] r@[i]).sensor_type == SensorType::Text && r@[i].unit@.len()
                == 0,
{
    proof {
        reveal_strlit("");
    }
    vec![
        reading(
            String::from_str("bios_vendor"),
            String::from_str("BIOS Vendor"),
            String::from_str(vendor),
            "",
            SensorType::Text,
        ),
        reading(
            String::from_str("bios_version"),
            String::from_str("BIOS Version"),
            String::from_str(bios_version),
            "",
            SensorType::Text,
        ),
        reading(
            String::from_str("bios_release_date"),
            String::from_str("BIOS Release Date"),
            String::from_str(release_date),
            "",
            SensorType::Text,
        ),
        reading(
            String::from_str("bios_revision"),
            String::from_str("BIOS Revision"),
            or_empty(bios_revision),
            "",
            SensorType::Text,
        ),
        reading(
            String::from_str("firmware_revision"),
            String::from_str("Firmware Revision"),
            or_empty(firmware_revision),
            "",
            SensorType::Text,
        ),
    ]
}

/// Volts of a number of millivolts, as `f32`'s `Display` writes them: no trailing zeros,
/// no decimal point for whole volts (`1200` gives `1.2`).
pub open spec fn volts_text(mv: nat) -> Seq<char> {
    let i = mv / 1000;
    let f = mv % 1000;
    if f == 0 {
        decimal(i)
    } else if f % 10 != 0 {
        decimal(i) + seq!['.', digit_char(f / 100), digit_char((f / 10) % 10), digit_char(f % 10)]
    } else if f % 100 != 0 {
        decimal(i) + seq!['.', digit_char(f / 100), digit_char((f / 10) % 10)]
    } else {
        decimal(i) + seq!['.', digit_char(f / 100)]
    }
}

pub fn volts_string(mv: u16) -> (r: String)
    ensures
        r@ == volts_text(mv as nat),
{
    let i = (mv / 1000) as u64;
    let f = (mv % 1000) as u64;
    let mut r = decimal_string(i);
    if f == 0 {
        return r;
    }
    proof {
        reveal_strlit(".");
    }
    r.append(".");
    let d1 = digit_str(f / 100);
    r.append(d1.as_str());
    if f % 100 != 0 {
        let d2 = digit_str((f / 10) % 10);
        r.append(d2.as_str());
    }
    if f % 10 != 0 {
        let d3 = digit_str(f % 10);
        r.append(d3.as_str());
    }
    assert(r@ =~= volts_text(mv as nat));
    r
}

/// Label of a memory module reading: manufacturer, part number and slot, then what is read.
pub open spec fn memory_label(
    manufacturer: Seq<char>,
    part: Seq<char>,
    locator: Seq<char>,
    what: Seq<char>,
) -> Seq<char> {
    manufacturer + " "@ + part + " "@ + locator + " "@ + what
}

fn memory_label_exec(manufacturer: &str, part: &str, locator: &str, what: &str) -> (r: String)
    ensures
        r@ == memory_label(manufacturer@, part@, locator@, what@),
{
    let mut r = concat3(manufacturer, " ", part);
    r.append(" ");
    r.append(locator);
    r.append(" ");
    r.append(what);
    r
}

/// Readings of one memory module: its type (`DDR4-3200 DIMM `), speed and configured
/// voltage. The speed is written without `MT/s` (`0` when unknown); the part number is trimmed;
/// an unknown voltage reads as `0`.
pub fn parse_memory_device(
    device_locator: &str,
    memory_type: &str,
    form_factor: &str,
    speed: Option<&str>,
    manufacturer: &str,
    part_number: &str,
    configured_voltage_mv: Option<u16>,
) -> (r: Vec<SensorValue>)
    ensures
        ({
            let sp = match speed {
                Some(x) => replace_all(x@, "MT/s"@, ""@),
                None => "0"@,
            };
            let part = trimmed(part_number@);
            let mv: nat = match configured_voltage_mv {
                Some(v) => v as nat,
                None => 0,
            };
            &&& r@.len() == 3
            &&& r@[0].id@ == "memory_device_"@ + device_locator@ + "_memory_type"@
            &&& r@[0].value@ == memory_type@ + "-"@ + sp + " "@ + form_factor@ + " "@
            &&& r@[0].label@ == memory_label(manufacturer@, part, device_locator@, "Memory type"@)
            &&& r@[0].sensor_type == SensorType::Text
            &&& r@[1].id@ == "memory_device_"@ + device_locator@ + "_memory_speed"@
            &&& r@[1].value@ == sp
            &&& r@[1].label@ == memory_label(manufacturer@, part, device_locator@, "Memory speed"@)
            &&& r@[1].sensor_type == SensorType::Number
            &&& r@[2].id@ == "memory_device_"@ + device_locator@ + "_memory_voltage"@
            &&& r@[2].value@ == volts_text(mv)
            &&& r@[2].unit@ == "V"@
            &&& r@[2].label@ == memory_label(
                manufacturer@,
                part,
                device_locator@,
                "Memory voltage"@,
            )
            &&& r@[2].sensor_type == SensorType::Number
        }),
{
    proof {
        reveal_strlit("MT/s");
    }
    let sp = match speed {
        Some(x) => replace_all_exec(x, "MT/s", ""),
        None => String::from_str("0"),
    };
    let part = trim(part_number);
    let mv: u16 = match configured_voltage_mv {
        Some(v) => v,
        None => 0,
    };
    let mut type_value = concat3(memory_type, "-", sp.as_str());
    type_value.append(" ");
    type_value.append(form_factor);
    type_value.append(" ");
    let type_reading = reading(
        concat3("memory_device_", device_locator, "_memory_type"),
        memory_label_exec(manufacturer, part.as_str(), device_locator, "Memory type"),
        type_value,
        "",
        SensorType::Text,
    );
    let speed_reading = reading(
        concat3("memory_device_", device_locator, "_memory_speed"),
        memory_label_exec(manufacturer, part.as_str(), device_locator, "Memory speed"),
        sp.clone(),
        "",
        SensorType::Number,
    );
    let voltage_reading = reading(
        concat3("memory_device_", device_locator, "_memory_voltage"),
        memory_label_exec(manufacturer, part.as_str(), device_locator, "Memory voltage"),
        volts_string(mv),
        "V",
        SensorType::Number,
    );
    vec![type_reading, speed_reading, voltage_reading]
}

// ---- memory and interfaces ----
/// A byte count reading in human-readable units.
fn bytes_reading(id: &str, label: &str, bytes: u64) -> (r: SensorValue)
    ensures
        r.id@ == id@,
        r.label@ == label@,
        r.value@ == two_decimals(pretty_hundredths(bytes as nat)),
        r.unit@ == byte_unit(unit_index(bytes as nat)),
        r.sensor_type == SensorType::Number,
{
    let (value, unit) = pretty_bytes(bytes);
    SensorValue {
        id: String::from_str(id),
        value,
        unit,
        label: String::from_str(label),
        sensor_type: SensorType::Number,
    }
}

/// Used memory: the total less the free memory, none when the counters disagree.
pub open spec fn used_memory(total: u64, free: u64) -> nat {
    if free > total {
        0
    } else {
        (total - free) as nat
    }
}

/// Total, used and free memory readings from the memory counters, in bytes.
pub fn memory_sensors(total: u64, free: u64) -> (r: Vec<SensorValue>)
    ensures
        r@.len() == 3,
        r@[0].id@ == "memory_total"@ && r@[0].label@ == "Total memory"@,
        r@[1].id@ == "memory_used"@ && r@[1].label@ == "Used memory"@,
        r@[2].id@ == "memory_free"@ && r@[2].label@ == "Free memory"@,
        r@[0].value@ == two_decimals(pretty_hundredths(total as nat)) && r@[0].unit@ == byte_unit(
            unit_index(total as nat),
        ),
        r@[1].value@ == two_decimals(pretty_hundredths(used_memory(total, free))) && r@[1].unit@
            == byte_unit(unit_index(used_memory(total, free))),
        r@[2].value@ == two_decimals(pretty_hundredths(free as nat)) && r@[2].unit@ == byte_unit(
            unit_index(free as nat),
        ),
        forall|i: int| 0 <= i < 3 ==> (#[trigger] r@[i]).sensor_type == SensorType::Number,
{
    let used: u64 = if free > total {
        0
    } else {
        total - free
    };
    vec![
        bytes_reading("memory_total", "Total memory", total),
        bytes_reading("memory_used", "Used memory", used),
        bytes_reading("memory_free", "Free memory", free),
    ]
}

/// The address reading of a network interface.
pub fn network_ip_sensor(iface_name: &str, address: String) -> (r: SensorValue)
    ensures
        r.id@ == "network_ip_"@ + iface_name@,
        r.label@ == iface_name@ + " IP"@,
        r.value == address,
        r.unit@.len() == 0,
        r.sensor_type == SensorType::Text,
{
    let mut id = String::from_str("network_ip_");
    id.append(iface_name);
    let mut label = String::from_str(iface_name);
    label.append(" IP");
    SensorValue { id, value: address, unit: String::new(), label, sensor_type: SensorType::Text }
}

} // verus!
