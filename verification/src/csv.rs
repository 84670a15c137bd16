//! CSV lines of the session files: header, telemetry rows, diagnostic
//! (`DIAG`) lines and the boot line.
use crate::text::{
    bounded, bounded_text, concat, decimal, hex_prefixed_pieces, join_all, lemma_ascii_utf8_len,
    lemma_decimal_ascii, lemma_decimal_u64_len, lemma_total_len_concat, lemma_utf8_len_concat,
    lemma_write_pieces_fit, lemma_write_pieces_len, push_decimal, push_hex_prefixed,
    push_str_piece, total_len, utf8_len, views, write_pieces, write_to,
};
use crate::types::{label_code, label_name, source_name, DataSource, SessionLabel};
use vstd::prelude::*;
use vstd::string::StringExecFns;
use vstd::utf8::is_ascii_chars;

verus! {

/// Capacity in bytes of a diagnostic or boot line.
pub const DIAG_LINE_CAPACITY: usize = 128;

/// Capacity in bytes of a telemetry row.
pub const CSV_LINE_CAPACITY: usize = 320;

/// The header line of every session file (eleven columns).
pub open spec fn header_text() -> Seq<char> {
    "timestamp_ms,source,can_id,speed_kmh,rpm,throttle_pct,engine_load_pct,maf_g_s,coolant_temp_c,session_label,obd_latency_ms\n"@
}

/// Returns the header line of the CSV schema.
pub fn csv_header() -> (r: &'static str)
    ensures
        r@ == header_text(),
{
    "timestamp_ms,source,can_id,speed_kmh,rpm,throttle_pct,engine_load_pct,maf_g_s,coolant_temp_c,session_label,obd_latency_ms\n"
}

/// The header is 122 ASCII characters long, starts with
/// `timestamp_ms,source,can_id` and ends with a newline.
pub proof fn lemma_header_shape()
    ensures
        header_text().len() == 122,
        is_ascii_chars(header_text()),
        utf8_len(header_text()) == 122,
        header_text().subrange(0, 26) == seq![
            't', 'i', 'm', 'e', 's', 't', 'a', 'm', 'p', '_', 'm', 's', ',',
            's', 'o', 'u', 'r', 'c', 'e', ',', 'c', 'a', 'n', '_', 'i', 'd',
        ],
        header_text().last() == '\n',
{
    reveal_strlit(
        "timestamp_ms,source,can_id,speed_kmh,rpm,throttle_pct,engine_load_pct,maf_g_s,coolant_temp_c,session_label,obd_latency_ms\n",
    );
    assert(header_text().subrange(0, 26) =~= seq![
        't', 'i', 'm', 'e', 's', 't', 'a', 'm', 'p', '_', 'm', 's', ',',
        's', 'o', 'u', 'r', 'c', 'e', ',', 'c', 'a', 'n', '_', 'i', 'd',
    ]);
    lemma_ascii_utf8_len(header_text());
}

/// The fixed middle of a diagnostic line: source `DIAG`, CAN id `0x000`
/// and the seven empty signal and label columns.
pub open spec fn diag_tag() -> Seq<char> {
    seq![',', 'D', 'I', 'A', 'G', ',', '0', 'x', '0', '0', '0', ',', ',', ',', ',', ',', ',', ',', ',']
}

/// Pieces of a diagnostic line: timestamp, tag, label code, message.
pub open spec fn diag_pieces(timestamp_ms: u64, label: SessionLabel, msg: Seq<char>) -> Seq<
    Seq<char>,
> {
    seq![decimal(timestamp_ms as nat), diag_tag(), label_code(label), seq![','], msg, seq!['\n']]
}

/// Full text of a diagnostic line.
pub open spec fn diag_text(timestamp_ms: u64, label: SessionLabel, msg: Seq<char>) -> Seq<char> {
    decimal(timestamp_ms as nat) + diag_tag() + label_code(label) + seq![','] + msg + seq!['\n']
}

fn diag_tag_str() -> (r: &'static str)
    ensures
        r@ == diag_tag(),
{
    proof {
        reveal_strlit(",DIAG,0x000,,,,,,,,");
    }
    let r = ",DIAG,0x000,,,,,,,,";
    assert(r@ =~= diag_tag());
    r
}

fn newline_str() -> (r: &'static str)
    ensures
        r@ == seq!['\n'],
{
    proof {
        reveal_strlit("\n");
    }
    let r = "\n";
    assert(r@ =~= seq!['\n']);
    r
}

fn comma_str() -> (r: &'static str)
    ensures
        r@ == seq![','],
{
    proof {
        reveal_strlit(",");
    }
    let r = ",";
    assert(r@ =~= seq![',']);
    r
}

/// Serializes a diagnostic event as a CSV line of at most 128 bytes:
/// `<timestamp>,DIAG,0x000,,,,,,,,<label code>,<message>\n`.
pub fn serialize_diag(timestamp_ms: u64, label: &SessionLabel, msg: &str) -> (r: String)
    ensures
        r@ == bounded_text(diag_pieces(timestamp_ms, *label, msg@), DIAG_LINE_CAPACITY as nat),
        utf8_len(r@) <= DIAG_LINE_CAPACITY,
        utf8_len(msg@) <= 64 ==> r@ == diag_text(timestamp_ms, *label, msg@),
{
    let mut pieces: Vec<String> = Vec::new();
    push_decimal(&mut pieces, timestamp_ms);
    push_str_piece(&mut pieces, diag_tag_str());
    push_str_piece(&mut pieces, label.code());
    push_str_piece(&mut pieces, comma_str());
    push_str_piece(&mut pieces, msg);
    push_str_piece(&mut pieces, newline_str());
    assert(views(pieces@) =~= diag_pieces(timestamp_ms, *label, msg@));
    let r = bounded(&pieces, DIAG_LINE_CAPACITY);
    proof {
        if utf8_len(msg@) <= 64 {
            lemma_diag_fits(timestamp_ms, *label, msg@);
        }
    }
    r
}

proof fn lemma_diag_fits(timestamp_ms: u64, label: SessionLabel, msg: Seq<char>)
    requires
        utf8_len(msg) <= 64,
    ensures
        bounded_text(diag_pieces(timestamp_ms, label, msg), DIAG_LINE_CAPACITY as nat)
            == diag_text(timestamp_ms, label, msg),
{
    let p = diag_pieces(timestamp_ms, label, msg);
    lemma_decimal_ascii(timestamp_ms as nat);
    lemma_decimal_u64_len(timestamp_ms as nat);
    lemma_ascii_utf8_len(decimal(timestamp_ms as nat));
    lemma_ascii_utf8_len(diag_tag());
    lemma_ascii_utf8_len(label_code(label));
    lemma_ascii_utf8_len(seq![',']);
    lemma_ascii_utf8_len(seq!['\n']);
    reveal_with_fuel(total_len, 7);
    reveal_with_fuel(concat, 7);
    assert(total_len(p) <= 128);
    lemma_write_pieces_fit(Seq::empty(), 0, p, DIAG_LINE_CAPACITY as nat);
    assert(Seq::<char>::empty() + concat(p) =~= diag_text(timestamp_ms, label, msg));
}

/// The fixed middle of the boot line: source `DIAG`, CAN id `0x000` and
/// five empty signal columns.
pub open spec fn boot_tag() -> Seq<char> {
    seq![',', 'D', 'I', 'A', 'G', ',', '0', 'x', '0', '0', '0', ',', ',', ',', ',', ',', ',']
}

/// Pieces of the boot line: timestamp, tag, label name, end.
pub open spec fn boot_pieces(timestamp_ms: u64, label: SessionLabel) -> Seq<Seq<char>> {
    seq![decimal(timestamp_ms as nat), boot_tag(), label_name(label), seq![',', '\n']]
}

/// Full text of the boot line.
pub open spec fn boot_text(timestamp_ms: u64, label: SessionLabel) -> Seq<char> {
    decimal(timestamp_ms as nat) + boot_tag() + label_name(label) + seq![',', '\n']
}

fn boot_tag_str() -> (r: &'static str)
    ensures
        r@ == boot_tag(),
{
    proof {
        reveal_strlit(",DIAG,0x000,,,,,,");
    }
    let r = ",DIAG,0x000,,,,,,";
    assert(r@ =~= boot_tag());
    r
}

fn comma_newline_str() -> (r: &'static str)
    ensures
        r@ == seq![',', '\n'],
{
    proof {
        reveal_strlit(",\n");
    }
    let r = ",\n";
    assert(r@ =~= seq![',', '\n']);
    r
}

/// Serializes the boot line written as the second line of every session
/// file: `<timestamp>,DIAG,0x000,,,,,,<label name>,\n`.
pub fn serialize_boot(timestamp_ms: u64, label: &SessionLabel) -> (r: String)
    ensures
        r@ == boot_text(timestamp_ms, *label),
        r@ == bounded_text(boot_pieces(timestamp_ms, *label), DIAG_LINE_CAPACITY as nat),
        is_ascii_chars(r@),
        r@.len() <= 48,
{
    let mut pieces: Vec<String> = Vec::new();
    push_decimal(&mut pieces, timestamp_ms);
    push_str_piece(&mut pieces, boot_tag_str());
    push_str_piece(&mut pieces, label.as_str());
    push_str_piece(&mut pieces, comma_newline_str());
    assert(views(pieces@) =~= boot_pieces(timestamp_ms, *label));
    let r = bounded(&pieces, DIAG_LINE_CAPACITY);
    proof {
        lemma_boot_text(timestamp_ms, *label);
    }
    r
}

/// The boot line is ASCII, at most 48 characters long, and fits whole in
/// its 128-byte buffer.
pub proof fn lemma_boot_text(timestamp_ms: u64, label: SessionLabel)
    ensures
        is_ascii_chars(boot_text(timestamp_ms, label)),
        boot_text(timestamp_ms, label).len() <= 48,
        utf8_len(boot_text(timestamp_ms, label)) == boot_text(timestamp_ms, label).len(),
        bounded_text(boot_pieces(timestamp_ms, label), DIAG_LINE_CAPACITY as nat) == boot_text(
            timestamp_ms,
            label,
        ),
{
    let p = boot_pieces(timestamp_ms, label);
    lemma_decimal_ascii(timestamp_ms as nat);
    lemma_decimal_u64_len(timestamp_ms as nat);
    lemma_ascii_utf8_len(decimal(timestamp_ms as nat));
    lemma_ascii_utf8_len(boot_tag());
    lemma_ascii_utf8_len(label_name(label));
    lemma_ascii_utf8_len(seq![',', '\n']);
    reveal_with_fuel(total_len, 5);
    reveal_with_fuel(concat, 5);
    lemma_write_pieces_fit(Seq::empty(), 0, p, DIAG_LINE_CAPACITY as nat);
    assert(Seq::<char>::empty() + concat(p) =~= boot_text(timestamp_ms, label));
    vstd::utf8::is_ascii_chars_concat(
        decimal(timestamp_ms as nat) + boot_tag(),
        decimal(timestamp_ms as nat),
        boot_tag(),
    );
    vstd::utf8::is_ascii_chars_concat(
        decimal(timestamp_ms as nat) + boot_tag() + label_name(label),
        decimal(timestamp_ms as nat) + boot_tag(),
        label_name(label),
    );
    vstd::utf8::is_ascii_chars_concat(
        boot_text(timestamp_ms, label),
        decimal(timestamp_ms as nat) + boot_tag() + label_name(label),
        seq![',', '\n'],
    );
    lemma_ascii_utf8_len(boot_text(timestamp_ms, label));
}

/// Capacity, as a specification number, of a telemetry row's buffer.
pub open spec fn row_cap() -> nat {
    CSV_LINE_CAPACITY as nat
}

/// The pieces written first in a telemetry row: timestamp, source and
/// `0x`-prefixed CAN id (at least three hex digits), each followed by a
/// comma.
pub open spec fn row_head_pieces(timestamp_ms: u64, source: DataSource, can_id: u32) -> Seq<
    Seq<char>,
> {
    seq![decimal(timestamp_ms as nat), seq![','], source_name(source), seq![',']]
        + hex_prefixed_pieces(can_id as nat, 5) + seq![seq![',']]
}

/// The row buffer (text, bytes) after the head and the first `n` signal
/// columns, each written by its own write and followed by a pushed comma;
/// `None` once a comma finds the buffer full (the firmware stops there).
pub open spec fn row_columns(
    timestamp_ms: u64,
    source: DataSource,
    can_id: u32,
    fields: Seq<Seq<char>>,
    n: nat,
) -> Option<(Seq<char>, nat)>
    decreases n,
{
    if n == 0 {
        Some(write_pieces(Seq::empty(), 0, row_head_pieces(timestamp_ms, source, can_id), row_cap()))
    } else {
        match row_columns(timestamp_ms, source, can_id, fields, (n - 1) as nat) {
            None => None,
            Some(st) => {
                let w = write_pieces(st.0, st.1, seq![fields[n - 1]], row_cap());
                if w.1 + 1 <= row_cap() {
                    Some((w.0.push(','), w.1 + 1))
                } else {
                    None
                }
            },
        }
    }
}

/// The telemetry row written into its 320-byte buffer: head, the six
/// signal columns (speed, rpm, throttle, engine load, MAF, coolant), the
/// label code with a comma, the OBD latency, then a pushed newline. A piece
/// that does not fit is left out; `None` when a pushed comma or the newline
/// finds the buffer full.
pub open spec fn row_result(
    timestamp_ms: u64,
    source: DataSource,
    can_id: u32,
    fields: Seq<Seq<char>>,
    label: SessionLabel,
    latency: Seq<char>,
) -> Option<Seq<char>> {
    match row_columns(timestamp_ms, source, can_id, fields, 6) {
        None => None,
        Some(st) => {
            let a = write_pieces(st.0, st.1, seq![label_code(label), seq![',']], row_cap());
            let b = write_pieces(a.0, a.1, seq![latency], row_cap());
            if b.1 + 1 <= row_cap() {
                Some(b.0.push('\n'))
            } else {
                None
            }
        },
    }
}

/// Text of a whole telemetry row: timestamp, source, `0x`-prefixed CAN id
/// (at least three hex digits), the six signal columns, the label code and
/// the OBD latency.
pub open spec fn row_text(
    timestamp_ms: u64,
    source: DataSource,
    can_id: u32,
    fields: Seq<Seq<char>>,
    label: SessionLabel,
    latency: Seq<char>,
) -> Seq<char> {
    row_prefix(timestamp_ms, source, can_id, fields, 6) + label_code(label) + seq![','] + latency
        + seq!['\n']
}

/// The head of a row and its first `n` signal columns, each followed by a
/// comma.
pub open spec fn row_prefix(
    timestamp_ms: u64,
    source: DataSource,
    can_id: u32,
    fields: Seq<Seq<char>>,
    n: nat,
) -> Seq<char>
    decreases n,
{
    if n == 0 {
        concat(row_head_pieces(timestamp_ms, source, can_id))
    } else {
        row_prefix(timestamp_ms, source, can_id, fields, (n - 1) as nat) + fields[n - 1] + seq![',']
    }
}

proof fn lemma_comma_len(t: Seq<char>, c: char)
    requires
        c == ',' || c == '\n',
    ensures
        utf8_len(t.push(c)) == utf8_len(t) + 1,
{
    assert(t.push(c) =~= t + seq![c]);
    lemma_utf8_len_concat(t, seq![c]);
    assert(is_ascii_chars(seq![c]));
    lemma_ascii_utf8_len(seq![c]);
}

proof fn lemma_row_columns_none(
    timestamp_ms: u64,
    source: DataSource,
    can_id: u32,
    fields: Seq<Seq<char>>,
    n: nat,
    m: nat,
)
    requires
        n <= m,
        row_columns(timestamp_ms, source, can_id, fields, n) is None,
    ensures
        row_columns(timestamp_ms, source, can_id, fields, m) is None,
    decreases m - n,
{
    if n < m {
        lemma_row_columns_none(timestamp_ms, source, can_id, fields, n, (m - 1) as nat);
    }
}

proof fn lemma_row_columns_fit(
    timestamp_ms: u64,
    source: DataSource,
    can_id: u32,
    fields: Seq<Seq<char>>,
    n: nat,
)
    requires
        n <= 6,
        fields.len() == 6,
        utf8_len(row_prefix(timestamp_ms, source, can_id, fields, n)) <= row_cap(),
    ensures
        row_columns(timestamp_ms, source, can_id, fields, n) == Some(
            (
                row_prefix(timestamp_ms, source, can_id, fields, n),
                utf8_len(row_prefix(timestamp_ms, source, can_id, fields, n)),
            ),
        ),
    decreases n,
{
    let p = row_prefix(timestamp_ms, source, can_id, fields, n);
    if n == 0 {
        let h = row_head_pieces(timestamp_ms, source, can_id);
        lemma_total_len_concat(h);
        lemma_write_pieces_fit(Seq::empty(), 0, h, row_cap());
        assert(Seq::<char>::empty() + concat(h) =~= concat(h));
    } else {
        let q = row_prefix(timestamp_ms, source, can_id, fields, (n - 1) as nat);
        let f = fields[n - 1];
        lemma_utf8_len_concat(q + f, seq![',']);
        lemma_utf8_len_concat(q, f);
        lemma_row_columns_fit(timestamp_ms, source, can_id, fields, (n - 1) as nat);
        lemma_total_len_concat(seq![f]);
        assert(concat(seq![f]) =~= f) by {
            reveal_with_fuel(concat, 2);
        }
        lemma_write_pieces_fit(q, utf8_len(q), seq![f], row_cap());
        lemma_comma_len(q + f, ',');
        assert((q + f).push(',') =~= p);
    }
}

/// A row that fits its 320-byte buffer is written whole.
pub proof fn lemma_row_fits(
    timestamp_ms: u64,
    source: DataSource,
    can_id: u32,
    fields: Seq<Seq<char>>,
    label: SessionLabel,
    latency: Seq<char>,
)
    requires
        fields.len() == 6,
        utf8_len(row_text(timestamp_ms, source, can_id, fields, label, latency)) <= row_cap(),
    ensures
        row_result(timestamp_ms, source, can_id, fields, label, latency) == Some(
            row_text(timestamp_ms, source, can_id, fields, label, latency),
        ),
{
    let p = row_prefix(timestamp_ms, source, can_id, fields, 6);
    let lc = label_code(label);
    lemma_utf8_len_concat(p + lc + seq![','] + latency, seq!['\n']);
    lemma_utf8_len_concat(p + lc + seq![','], latency);
    lemma_utf8_len_concat(p + lc, seq![',']);
    lemma_utf8_len_concat(p, lc);
    lemma_row_columns_fit(timestamp_ms, source, can_id, fields, 6);
    let pieces = seq![lc, seq![',']];
    lemma_utf8_len_concat(lc, seq![',']);
    lemma_total_len_concat(pieces);
    assert(concat(pieces) =~= lc + seq![',']) by {
        reveal_with_fuel(concat, 3);
    }
    lemma_write_pieces_fit(p, utf8_len(p), pieces, row_cap());
    assert(p + concat(pieces) =~= p + lc + seq![',']);
    let a = p + lc + seq![','];
    lemma_total_len_concat(seq![latency]);
    assert(concat(seq![latency]) =~= latency) by {
        reveal_with_fuel(concat, 2);
    }
    lemma_write_pieces_fit(a, utf8_len(a), seq![latency], row_cap());
    lemma_comma_len(a + latency, '\n');
    assert((a + latency).push('\n') =~= row_text(timestamp_ms, source, can_id, fields, label, latency));
}

/// Writes a telemetry row from its already formatted signal columns
/// (`fields`, in schema order, empty for a missing signal) and latency
/// into a 320-byte buffer. A piece that does not fit is left out; when a
/// separating comma or the final newline finds the buffer full the
/// firmware stops, and the result is `None`. Every row of decoded signals
/// fits whole.
pub fn format_row(
    timestamp_ms: u64,
    source: DataSource,
    can_id: u32,
    fields: &Vec<String>,
    label: SessionLabel,
    latency: &str,
) -> (r: Option<String>)
    requires
        fields@.len() == 6,
    ensures
        match r {
            Some(row) => row_result(timestamp_ms, source, can_id, views(fields@), label, latency@)
                == Some(row@),
            None => row_result(timestamp_ms, source, can_id, views(fields@), label, latency@) is None,
        },
        r matches Some(row) ==> utf8_len(row@) <= CSV_LINE_CAPACITY,
        utf8_len(row_text(timestamp_ms, source, can_id, views(fields@), label, latency@))
            <= CSV_LINE_CAPACITY ==> (r matches Some(row) && row@ == row_text(
            timestamp_ms,
            source,
            can_id,
            views(fields@),
            label,
            latency@,
        )),
{
    let ghost fv = views(fields@);
    let mut head: Vec<String> = Vec::new();
    push_decimal(&mut head, timestamp_ms);
    push_str_piece(&mut head, comma_str());
    push_str_piece(&mut head, source.as_str());
    push_str_piece(&mut head, comma_str());
    push_hex_prefixed(&mut head, can_id as u64, 5);
    push_str_piece(&mut head, comma_str());
    assert(views(head@) =~= row_head_pieces(timestamp_ms, source, can_id));
    let mut text = String::new();
    proof {
        assert(text@ =~= Seq::<char>::empty());
        assert(vstd::utf8::encode_utf8(Seq::<char>::empty()) =~= Seq::<u8>::empty());
        lemma_write_pieces_len(text@, 0, views(head@), row_cap());
    }
    let mut used = write_to(&mut text, 0, &head, CSV_LINE_CAPACITY);
    let mut i: usize = 0;
    while i < 6
        invariant
            i <= 6,
            fields@.len() == 6,
            fv == views(fields@),
            used <= CSV_LINE_CAPACITY,
            utf8_len(text@) == used,
            row_columns(timestamp_ms, source, can_id, fv, i as nat) == Some((text@, used as nat)),
        decreases 6 - i,
    {
        let mut column: Vec<String> = Vec::new();
        push_str_piece(&mut column, fields[i].as_str());
        assert(views(column@) =~= seq![fv[i as int]]);
        proof {
            lemma_write_pieces_len(text@, used as nat, views(column@), row_cap());
        }
        used = write_to(&mut text, used, &column, CSV_LINE_CAPACITY);
        if used >= CSV_LINE_CAPACITY {
            proof {
                lemma_row_columns_none(timestamp_ms, source, can_id, fv, (i + 1) as nat, 6);
                if utf8_len(row_text(timestamp_ms, source, can_id, fv, label, latency@)) <= row_cap() {
                    lemma_row_fits(timestamp_ms, source, can_id, fv, label, latency@);
                }
            }
            return None;
        }
        let ghost t = text@;
        proof {
            lemma_comma_len(t, ',');
        }
        text.append(comma_str());
        assert(text@ =~= t.push(','));
        used = used + 1;
        i = i + 1;
    }
    let mut tail: Vec<String> = Vec::new();
    push_str_piece(&mut tail, label.code());
    push_str_piece(&mut tail, comma_str());
    assert(views(tail@) =~= seq![label_code(label), seq![',']]);
    proof {
        lemma_write_pieces_len(text@, used as nat, views(tail@), row_cap());
    }
    used = write_to(&mut text, used, &tail, CSV_LINE_CAPACITY);
    let mut lat: Vec<String> = Vec::new();
    push_str_piece(&mut lat, latency);
    assert(views(lat@) =~= seq![latency@]);
    proof {
        lemma_write_pieces_len(text@, used as nat, views(lat@), row_cap());
    }
    used = write_to(&mut text, used, &lat, CSV_LINE_CAPACITY);
    if used >= CSV_LINE_CAPACITY {
        proof {
            if utf8_len(row_text(timestamp_ms, source, can_id, fv, label, latency@)) <= row_cap() {
                lemma_row_fits(timestamp_ms, source, can_id, fv, label, latency@);
            }
        }
        return None;
    }
    let ghost t = text@;
    proof {
        lemma_comma_len(t, '\n');
    }
    text.append(newline_str());
    assert(text@ =~= t.push('\n'));
    proof {
        if utf8_len(row_text(timestamp_ms, source, can_id, fv, label, latency@)) <= row_cap() {
            lemma_row_fits(timestamp_ms, source, can_id, fv, label, latency@);
        }
    }
    Some(text)
}

} // verus!
