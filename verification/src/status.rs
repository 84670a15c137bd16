//! JSON status messages published on the status topic, and the names of
//! session files.
use crate::text::{
    bounded, bounded_text, concat, decimal, join_all, padded_pieces, push_decimal, push_padded,
    push_str_piece, utf8_len, views, write_pieces, write_to, lemma_write_pieces_len,
    lemma_total_len_concat, lemma_utf8_len_concat, lemma_write_pieces_fit,
};
use crate::types::{label_name, SessionLabel};
use vstd::prelude::*;

verus! {

pub open spec fn quote() -> Seq<char> {
    "\""@
}

pub open spec fn bool_text(b: bool) -> Seq<char> {
    if b {
        seq!['t', 'r', 'u', 'e']
    } else {
        seq!['f', 'a', 'l', 's', 'e']
    }
}

fn bool_str(b: bool) -> (r: &'static str)
    ensures
        r@ == bool_text(b),
{
    if b {
        proof {
            reveal_strlit("true");
        }
        let r = "true";
        assert(r@ =~= bool_text(b));
        r
    } else {
        proof {
            reveal_strlit("false");
        }
        let r = "false";
        assert(r@ =~= bool_text(b));
        r
    }
}

/// Name of a session file: `S_<id, 4 digits>.CSV`.
pub open spec fn session_filename_text(id: u16) -> Seq<char> {
    seq!['S', '_'] + concat(padded_pieces(id as nat, 4)) + seq!['.', 'C', 'S', 'V']
}

/// The name of the session file with the given number.
pub fn session_filename(id: u16) -> (r: String)
    ensures
        r@ == session_filename_text(id),
{
    let mut pieces: Vec<String> = Vec::new();
    proof {
        reveal_strlit("S_");
        reveal_strlit(".CSV");
    }
    push_str_piece(&mut pieces, "S_");
    let mut num: Vec<String> = Vec::new();
    push_padded(&mut num, id as u64, 4);
    let number = join_all(&num);
    push_str_piece(&mut pieces, number.as_str());
    push_str_piece(&mut pieces, ".CSV");
    let r = join_all(&pieces);
    proof {
        reveal_with_fuel(concat, 4);
        assert(r@ =~= session_filename_text(id));
    }
    r
}

/// Pieces of the message announcing that a session was stopped.
pub open spec fn stopped_pieces(session_id: u16) -> Seq<Seq<char>> {
    seq!["{\"event\":\"SESSION_STOPPED\",\"session_id\":\"S"@] + padded_pieces(session_id as nat, 4)
        + seq!["\"}"@]
}

/// `{"event":"SESSION_STOPPED","session_id":"S<id>"}` (128-byte buffer).
pub fn session_stopped_json(session_id: u16) -> (r: String)
    ensures
        r@ == bounded_text(stopped_pieces(session_id), 128),
        utf8_len(r@) <= 128,
{
    let mut pieces: Vec<String> = Vec::new();
    push_str_piece(&mut pieces, "{\"event\":\"SESSION_STOPPED\",\"session_id\":\"S");
    push_padded(&mut pieces, session_id as u64, 4);
    push_str_piece(&mut pieces, "\"}");
    assert(views(pieces@) =~= stopped_pieces(session_id));
    bounded(&pieces, 128)
}

/// Pieces of the message announcing the end of a replay.
pub open spec fn replay_complete_pieces(session_file: Seq<char>, bytes_sent: u32) -> Seq<Seq<char>> {
    seq![
        "{\"event\":\"REPLAY_COMPLETE\",\"session\":\""@,
        session_file,
        "\",\"bytes_sent\":"@,
        decimal(bytes_sent as nat),
        "}"@,
    ]
}

/// `{"event":"REPLAY_COMPLETE","session":"<file>","bytes_sent":<n>}`
/// (128-byte buffer).
pub fn replay_complete_json(session_file: &str, bytes_sent: u32) -> (r: String)
    ensures
        r@ == bounded_text(replay_complete_pieces(session_file@, bytes_sent), 128),
        utf8_len(r@) <= 128,
{
    let mut pieces: Vec<String> = Vec::new();
    push_str_piece(&mut pieces, "{\"event\":\"REPLAY_COMPLETE\",\"session\":\"");
    push_str_piece(&mut pieces, session_file);
    push_str_piece(&mut pieces, "\",\"bytes_sent\":");
    push_decimal(&mut pieces, bytes_sent as u64);
    push_str_piece(&mut pieces, "}");
    assert(views(pieces@) =~= replay_complete_pieces(session_file@, bytes_sent));
    bounded(&pieces, 128)
}

/// Pieces of the message announcing a new session.
pub open spec fn session_start_pieces(
    session_id: u16,
    label: SessionLabel,
    duration_min: u32,
    start_epoch_ms: u64,
) -> Seq<Seq<char>> {
    seq!["{\"event\":\"SESSION_START\",\"session_id\":\"S"@] + padded_pieces(session_id as nat, 4)
        + seq![
        "\",\"mode\":\""@,
        label_name(label),
        "\",\"duration_min\":"@,
        decimal(duration_min as nat),
        ",\"start_epoch_ms\":"@,
        decimal(start_epoch_ms as nat),
        "}"@,
    ]
}

/// `{"event":"SESSION_START","session_id":"S<id>","mode":"<label>",
/// "duration_min":<d>,"start_epoch_ms":<t>}` (200-byte buffer).
pub fn session_start_json(
    session_id: u16,
    label: SessionLabel,
    duration_min: u32,
    start_epoch_ms: u64,
) -> (r: String)
    ensures
        r@ == bounded_text(
            session_start_pieces(session_id, label, duration_min, start_epoch_ms),
            200,
        ),
        utf8_len(r@) <= 200,
{
    let mut pieces: Vec<String> = Vec::new();
    push_str_piece(&mut pieces, "{\"event\":\"SESSION_START\",\"session_id\":\"S");
    push_padded(&mut pieces, session_id as u64, 4);
    push_str_piece(&mut pieces, "\",\"mode\":\"");
    push_str_piece(&mut pieces, label.as_str());
    push_str_piece(&mut pieces, "\",\"duration_min\":");
    push_decimal(&mut pieces, duration_min as u64);
    push_str_piece(&mut pieces, ",\"start_epoch_ms\":");
    push_decimal(&mut pieces, start_epoch_ms);
    push_str_piece(&mut pieces, "}");
    assert(views(pieces@) =~= session_start_pieces(
        session_id,
        label,
        duration_min,
        start_epoch_ms,
    ));
    bounded(&pieces, 200)
}

/// Values reported by the periodic status message.
#[derive(Clone, Copy, Debug, PartialEq, Eq, Structural)]
pub struct StatusReport {
    pub recording: bool,
    pub session_id: u16,
    pub sd_ok: bool,
    pub wifi_ok: bool,
    pub frames_received: u32,
    pub lost: u32,
    pub uptime_ms: u64,
}

/// State word of the status message.
pub open spec fn state_text(recording: bool) -> Seq<char> {
    if recording {
        "RECORDING"@
    } else {
        "STANDBY"@
    }
}

/// Pieces of the periodic status message.
pub open spec fn status_pieces(s: StatusReport) -> Seq<Seq<char>> {
    seq!["{\"state\":\""@, state_text(s.recording), "\",\"session_id\":\"S"@] + padded_pieces(
        s.session_id as nat,
        4,
    ) + seq![
        "\",\"recording\":"@,
        bool_text(s.recording),
        ",\"sd_ok\":"@,
        bool_text(s.sd_ok),
        ",\"wifi_ok\":"@,
        bool_text(s.wifi_ok),
        ",\"frames_received\":"@,
        decimal(s.frames_received as nat),
        ",\"lost\":"@,
        decimal(s.lost as nat),
        ",\"uptime_ms\":"@,
        decimal(s.uptime_ms as nat),
        "}"@,
    ]
}

/// The periodic status message (220-byte buffer).
pub fn status_json(s: &StatusReport) -> (r: String)
    ensures
        r@ == bounded_text(status_pieces(*s), 220),
        utf8_len(r@) <= 220,
{
    let mut pieces: Vec<String> = Vec::new();
    push_str_piece(&mut pieces, "{\"state\":\"");
    if s.recording {
        push_str_piece(&mut pieces, "RECORDING");
    } else {
        push_str_piece(&mut pieces, "STANDBY");
    }
    push_str_piece(&mut pieces, "\",\"session_id\":\"S");
    push_padded(&mut pieces, s.session_id as u64, 4);
    push_str_piece(&mut pieces, "\",\"recording\":");
    push_str_piece(&mut pieces, bool_str(s.recording));
    push_str_piece(&mut pieces, ",\"sd_ok\":");
    push_str_piece(&mut pieces, bool_str(s.sd_ok));
    push_str_piece(&mut pieces, ",\"wifi_ok\":");
    push_str_piece(&mut pieces, bool_str(s.wifi_ok));
    push_str_piece(&mut pieces, ",\"frames_received\":");
    push_decimal(&mut pieces, s.frames_received as u64);
    push_str_piece(&mut pieces, ",\"lost\":");
    push_decimal(&mut pieces, s.lost as u64);
    push_str_piece(&mut pieces, ",\"uptime_ms\":");
    push_decimal(&mut pieces, s.uptime_ms);
    push_str_piece(&mut pieces, "}");
    assert(views(pieces@) =~= status_pieces(*s));
    bounded(&pieces, 220)
}

/// Pieces of the head of the session list message.
pub open spec fn list_head_pieces(total: usize, active: Seq<char>) -> Seq<Seq<char>> {
    seq![
        "{\"event\":\"SESSION_LIST\",\"total\":"@,
        decimal(total as nat),
        ",\"active\":\""@,
        active,
        "\",\"files\":["@,
    ]
}

/// Buffer state (text, bytes) after the session list's head and its first
/// `n` file entries were written, each entry by its own write (a comma
/// before every entry but the first, then the quoted name).
pub open spec fn list_state(active: Seq<char>, files: Seq<Seq<char>>, n: nat) -> (Seq<char>, nat)
    decreases n,
{
    if n == 0 {
        write_pieces(Seq::empty(), 0, list_head_pieces(files.len() as usize, active), 512)
    } else {
        let prev = list_state(active, files, (n - 1) as nat);
        let sep = if n > 1 {
            write_pieces(prev.0, prev.1, seq![","@], 512)
        } else {
            prev
        };
        write_pieces(sep.0, sep.1, seq![quote(), files[n - 1], quote()], 512)
    }
}

/// Text of the session list message, closed by `]}`.
pub open spec fn session_list_text(active: Seq<char>, files: Seq<Seq<char>>) -> Seq<char> {
    let s = list_state(active, files, files.len());
    write_pieces(s.0, s.1, seq!["]}"@], 512).0
}

/// The file names, each in double quotes, separated by single commas.
pub open spec fn quoted_list(files: Seq<Seq<char>>) -> Seq<char>
    decreases files.len(),
{
    if files.len() == 0 {
        Seq::empty()
    } else if files.len() == 1 {
        seq!['"'] + files[0] + seq!['"']
    } else {
        quoted_list(files.drop_last()) + seq![','] + seq!['"'] + files.last() + seq!['"']
    }
}

/// The whole session list message: the head with the number of files and
/// the active file, the quoted file names separated by commas, then `]}`.
pub open spec fn session_list_full(active: Seq<char>, files: Seq<Seq<char>>) -> Seq<char> {
    "{\"event\":\"SESSION_LIST\",\"total\":"@ + decimal(files.len()) + ",\"active\":\""@ + active
        + "\",\"files\":["@ + quoted_list(files) + "]}"@
}

proof fn lemma_fit_write(text: Seq<char>, pieces: Seq<Seq<char>>, cap: nat)
    requires
        utf8_len(text + concat(pieces)) <= cap,
    ensures
        write_pieces(text, utf8_len(text), pieces, cap) == (
            text + concat(pieces),
            utf8_len(text + concat(pieces)),
        ),
{
    lemma_total_len_concat(pieces);
    lemma_utf8_len_concat(text, concat(pieces));
    lemma_write_pieces_fit(text, utf8_len(text), pieces, cap);
}

proof fn lemma_list_prefix(active: Seq<char>, files: Seq<Seq<char>>, n: nat)
    requires
        n <= files.len(),
        files.len() <= usize::MAX,
        utf8_len(
            concat(list_head_pieces(files.len() as usize, active)) + quoted_list(files.take(n as int)),
        ) <= 512,
    ensures
        ({
            let t = concat(list_head_pieces(files.len() as usize, active)) + quoted_list(
                files.take(n as int),
            );
            list_state(active, files, n) == (t, utf8_len(t))
        }),
    decreases n,
{
    let hp = list_head_pieces(files.len() as usize, active);
    let h = concat(hp);
    if n == 0 {
        assert(files.take(0) =~= Seq::<Seq<char>>::empty());
        assert(Seq::<char>::empty() + h =~= h);
        assert(h + quoted_list(files.take(0)) =~= h);
        assert(utf8_len(Seq::<char>::empty()) == 0) by {
            assert(vstd::utf8::encode_utf8(Seq::<char>::empty()) =~= Seq::<u8>::empty());
        }
        lemma_fit_write(Seq::empty(), hp, 512);
    } else {
        reveal_strlit(",");
        reveal_strlit("\"");
        let q = files.take(n as int);
        let qp = files.take(n - 1);
        let f = files[n - 1];
        assert(q.drop_last() =~= qp);
        assert(q.last() == f);
        let p = h + quoted_list(qp);
        let entry = seq!['"'] + f + seq!['"'];
        let sep: Seq<char> = if n > 1 {
            seq![',']
        } else {
            Seq::empty()
        };
        if n == 1 {
            assert(qp =~= Seq::<Seq<char>>::empty());
        }
        assert(h + quoted_list(q) =~= p + sep + entry);
        assert(p + sep + entry =~= p + (sep + entry));
        lemma_utf8_len_concat(p, sep + entry);
        lemma_list_prefix(active, files, (n - 1) as nat);
        let pieces = seq![quote(), f, quote()];
        assert(concat(pieces) =~= entry) by {
            reveal_with_fuel(concat, 4);
        }
        if n > 1 {
            let cp = seq![","@];
            assert(concat(cp) =~= sep) by {
                reveal_with_fuel(concat, 2);
            }
            lemma_utf8_len_concat(p + sep, entry);
            assert(p + sep + entry =~= (p + sep) + entry);
            lemma_fit_write(p, cp, 512);
            lemma_fit_write(p + sep, pieces, 512);
        } else {
            assert(p + sep =~= p);
            lemma_fit_write(p, pieces, 512);
        }
    }
}

/// The session list message, whenever it fits its 512-byte buffer, is the
/// head, then every file name in double quotes, separated by single
/// commas, then `]}`.
pub proof fn lemma_session_list_fits(active: Seq<char>, files: Seq<Seq<char>>)
    requires
        files.len() <= usize::MAX,
        utf8_len(session_list_full(active, files)) <= 512,
    ensures
        session_list_text(active, files) == session_list_full(active, files),
{
    reveal_strlit("]}");
    let hp = list_head_pieces(files.len() as usize, active);
    let h = concat(hp);
    assert(h =~= "{\"event\":\"SESSION_LIST\",\"total\":"@ + decimal(files.len()) + ",\"active\":\""@
        + active + "\",\"files\":["@) by {
        reveal_with_fuel(concat, 6);
    }
    assert(files.take(files.len() as int) =~= files);
    let t = h + quoted_list(files);
    assert(session_list_full(active, files) =~= t + "]}"@);
    lemma_utf8_len_concat(t, "]}"@);
    lemma_list_prefix(active, files, files.len());
    let tail = seq!["]}"@];
    assert(concat(tail) =~= "]}"@) by {
        reveal_with_fuel(concat, 2);
    }
    lemma_fit_write(t, tail, 512);
}

/// `{"event":"SESSION_LIST","total":<n>,"active":"<file>","files":[...]}`
/// (512-byte buffer).
pub fn session_list_json(active: &str, files: &Vec<String>) -> (r: String)
    ensures
        r@ == session_list_text(active@, views(files@)),
        utf8_len(r@) <= 512,
        utf8_len(session_list_full(active@, views(files@))) <= 512 ==> r@ == session_list_full(
            active@,
            views(files@),
        ),
{
    let count = files.len();
    proof {
        assert(views(files@).len() == count);
        if utf8_len(session_list_full(active@, views(files@))) <= 512 {
            lemma_session_list_fits(active@, views(files@));
        }
    }
    let ghost fv = views(files@);
    let mut head: Vec<String> = Vec::new();
    push_str_piece(&mut head, "{\"event\":\"SESSION_LIST\",\"total\":");
    push_decimal(&mut head, files.len() as u64);
    push_str_piece(&mut head, ",\"active\":\"");
    push_str_piece(&mut head, active);
    push_str_piece(&mut head, "\",\"files\":[");
    assert(views(head@) =~= list_head_pieces(files@.len() as usize, active@));
    let mut text = String::new();
    proof {
        assert(utf8_len(text@) == 0) by {
            assert(text@ =~= Seq::<char>::empty());
            assert(vstd::utf8::encode_utf8(Seq::<char>::empty()) =~= Seq::<u8>::empty());
        }
        lemma_write_pieces_len(text@, 0, views(head@), 512);
    }
    let mut used = write_to(&mut text, 0, &head, 512);
    let mut i: usize = 0;
    while i < files.len()
        invariant
            i <= files@.len(),
            fv == views(files@),
            used <= 512,
            utf8_len(text@) == used,
            (text@, used as nat) == list_state(active@, fv, i as nat),
        decreases files@.len() - i,
    {
        if i > 0 {
            let mut sep: Vec<String> = Vec::new();
            push_str_piece(&mut sep, ",");
            assert(views(sep@) =~= seq![","@]);
            proof {
                lemma_write_pieces_len(text@, used as nat, views(sep@), 512);
            }
            used = write_to(&mut text, used, &sep, 512);
        }
        let mut entry: Vec<String> = Vec::new();
        push_str_piece(&mut entry, "\"");
        push_str_piece(&mut entry, files[i].as_str());
        push_str_piece(&mut entry, "\"");
        assert(views(entry@) =~= seq![quote(), fv[i as int], quote()]);
        proof {
            lemma_write_pieces_len(text@, used as nat, views(entry@), 512);
        }
        used = write_to(&mut text, used, &entry, 512);
        i = i + 1;
    }
    let mut tail: Vec<String> = Vec::new();
    push_str_piece(&mut tail, "]}");
    assert(views(tail@) =~= seq!["]}"@]);
    proof {
        lemma_write_pieces_len(text@, used as nat, views(tail@), 512);
    }
    let _ = write_to(&mut text, used, &tail, 512);
    text
}

} // verus!
