//! The client-association parser: consumes stream-listing text and yields
//! the `(client index, endpoint index)` pairs of real media streams,
//! leaving out monitor-attached streams and the volume-control
//! application's own stream.

use vstd::prelude::*;
use vstd::string::*;

use crate::parse_error::{EntityKind, ErrView, ParseError, ParseErrorKind};
use crate::scan::{scan_line, scan_spec};
use crate::text::{
    find_class, find_from, lemma_find_class_sub, line_views, parse_u64, parse_u64_spec,
    split_lines, split_trimmed_lines, str_eq, CharClass,
};

verus! {

/// The stream value shape `<integer> <angle-bracket-name>`: a run of
/// digits, then optional blanks, then a non-empty name in angle brackets.
pub open spec fn index_name_of_value(v: Seq<char>) -> Option<(u64, Seq<char>)> {
    let d = find_class(v, CharClass::NonDigit);
    let dend = if d < 0 {
        v.len() as int
    } else {
        d
    };
    if dend == 0 {
        None
    } else {
        let j = find_class(v.subrange(dend, v.len() as int), CharClass::NonSpace);
        if j < 0 {
            None
        } else {
            let open_pos = dend + j;
            if v[open_pos] != '<' {
                None
            } else {
                let g = find_class(v.subrange(open_pos + 1, v.len() as int), CharClass::CloseAngle);
                if g <= 0 {
                    None
                } else {
                    match parse_u64_spec(v.subrange(0, dend)) {
                        None => None,
                        Some(i) => Some((i, v.subrange(open_pos + 1, open_pos + 1 + g))),
                    }
                }
            }
        }
    }
}

/// Reads a `<integer> <angle-bracket-name>` value.
pub fn index_name_of_value_exec(v: &str) -> (r: Option<(u64, String)>)
    ensures
        match r {
            Some(p) => index_name_of_value(v@) == Some((p.0, p.1@)),
            None => index_name_of_value(v@) is None,
        },
{
    let n = v.unicode_len();
    let nondigit = find_from(v, 0, CharClass::NonDigit);
    proof {
        assert(v@.subrange(0, n as int) =~= v@);
        lemma_find_class_sub(v@, 0, n as int, CharClass::NonDigit, nondigit);
    }
    let dend = match nondigit {
        None => n,
        Some(d) => d,
    };
    if dend == 0 {
        return None;
    }
    let nonspace = find_from(v, dend, CharClass::NonSpace);
    proof {
        lemma_find_class_sub(v@, dend as int, n as int, CharClass::NonSpace, nonspace);
    }
    let open_pos = match nonspace {
        None => {
            return None;
        },
        Some(j) => j,
    };
    if v.get_char(open_pos) != '<' {
        return None;
    }
    let close = find_from(v, open_pos + 1, CharClass::CloseAngle);
    proof {
        lemma_find_class_sub(v@, open_pos + 1, n as int, CharClass::CloseAngle, close);
    }
    let close_pos = match close {
        None => {
            return None;
        },
        Some(g) => g,
    };
    if close_pos == open_pos + 1 {
        return None;
    }
    let digits = v.substring_char(0, dend);
    match parse_u64(digits) {
        None => None,
        Some(i) => {
            let name = v.substring_char(open_pos + 1, close_pos).to_owned();
            Some((i, name))
        },
    }
}

/// Whether a stream's endpoint name marks a monitor pseudo-endpoint.
pub open spec fn is_monitor_name(name: Seq<char>) -> bool {
    name.len() >= ".monitor"@.len() && name.subrange(
        name.len() - ".monitor"@.len(),
        name.len() as int,
    ) == ".monitor"@
}

/// Whether a stream name ends in `.monitor`.
pub fn ends_with_monitor(name: &str) -> (r: bool)
    ensures
        r == is_monitor_name(name@),
{
    proof {
        reveal_strlit(".monitor");
    }
    let n = name.unicode_len();
    if n < 8 {
        return false;
    }
    let tail = name.substring_char(n - 8, n);
    str_eq(tail, ".monitor")
}

/// The state the client-association parser carries from line to line.
#[verifier::ext_equal]
pub ghost struct ClientsState {
    pub pairs: Seq<(u64, u64)>,
    pub client_idx: u64,
    pub ep_idx: u64,
    pub is_monitor: bool,
}

pub open spec fn clients_init() -> ClientsState {
    ClientsState { pairs: Seq::empty(), client_idx: 0, ep_idx: 0, is_monitor: false }
}

pub open spec fn client_err(kind: ParseErrorKind, line: Seq<char>) -> ErrView {
    ErrView { entity: EntityKind::ClientAssociation, kind, line }
}

/// An `index` line opens a stream block: its number is remembered and the
/// monitor flag is reset.
pub open spec fn clients_index_step(st: ClientsState, v: Seq<char>, line: Seq<char>) -> Result<
    ClientsState,
    ErrView,
> {
    match parse_u64_spec(v) {
        None => Err(client_err(ParseErrorKind::InvalidNumber, line)),
        Some(n) => Ok(ClientsState { client_idx: n, is_monitor: false, ..st }),
    }
}

/// A `source` or `sink` line names the attached endpoint; a name ending in
/// `.monitor` marks the whole stream as a monitor stream.
pub open spec fn clients_endpoint_step(st: ClientsState, v: Seq<char>, line: Seq<char>) -> Result<
    ClientsState,
    ErrView,
> {
    match index_name_of_value(v) {
        None => Err(client_err(ParseErrorKind::MalformedEntityReference, line)),
        Some(p) => Ok(ClientsState { ep_idx: p.0, is_monitor: is_monitor_name(p.1), ..st }),
    }
}

/// A `client` line closes a stream block: unless the stream is a monitor
/// stream or belongs to the volume-control application itself, the pending
/// `(client index, endpoint index)` pair is appended.
pub open spec fn clients_client_step(st: ClientsState, v: Seq<char>, line: Seq<char>) -> Result<
    ClientsState,
    ErrView,
> {
    if st.is_monitor {
        Ok(st)
    } else {
        match index_name_of_value(v) {
            None => Err(client_err(ParseErrorKind::MalformedEntityReference, line)),
            Some(p) => if p.1 == "PulseAudio Volume Control"@ {
                Ok(st)
            } else {
                Ok(ClientsState { pairs: st.pairs.push((st.client_idx, st.ep_idx)), ..st })
            },
        }
    }
}

/// What one line does to the client-association parser's state.
pub open spec fn clients_step(st: ClientsState, line: Seq<char>) -> Result<ClientsState, ErrView> {
    match scan_spec(line) {
        None => Ok(st),
        Some(sc) => {
            let k = sc.key;
            if k == "index"@ {
                clients_index_step(st, sc.value, line)
            } else if k == "source"@ || k == "sink"@ {
                clients_endpoint_step(st, sc.value, line)
            } else if k == "client"@ {
                clients_client_step(st, sc.value, line)
            } else {
                Ok(st)
            }
        },
    }
}

/// The state after the given lines, or the first fatal failure.
pub open spec fn clients_run(lines: Seq<Seq<char>>) -> Result<ClientsState, ErrView>
    decreases lines.len(),
{
    if lines.len() == 0 {
        Ok(clients_init())
    } else {
        match clients_run(lines.drop_last()) {
            Err(e) => Err(e),
            Ok(st) => clients_step(st, lines.last()),
        }
    }
}

/// What parsing a whole stream listing yields. A block's pair is appended
/// the moment its `client` line is read, so nothing is pending at the end.
pub open spec fn clients_result(text: Seq<char>) -> Result<Seq<(u64, u64)>, ErrView> {
    match clients_run(split_lines(text)) {
        Err(e) => Err(e),
        Ok(st) => Ok(st.pairs),
    }
}

/// A failure reached on a prefix of the lines is the failure of the whole
/// run.
pub proof fn lemma_clients_run_err(lines: Seq<Seq<char>>, i: int)
    requires
        0 <= i <= lines.len(),
        clients_run(lines.take(i)) is Err,
    ensures
        clients_run(lines) == clients_run(lines.take(i)),
    decreases lines.len() - i,
{
    if i == lines.len() {
        assert(lines.take(i) =~= lines);
    } else {
        assert(lines.take(i + 1).drop_last() =~= lines.take(i));
        lemma_clients_run_err(lines, i + 1);
    }
}

/// The working state of the exec parser.
pub struct ClientsAcc {
    pub pairs: Vec<(u64, u64)>,
    pub client_idx: u64,
    pub ep_idx: u64,
    pub is_monitor: bool,
}

impl View for ClientsAcc {
    type V = ClientsState;

    open spec fn view(&self) -> ClientsState {
        ClientsState {
            pairs: self.pairs@,
            client_idx: self.client_idx,
            ep_idx: self.ep_idx,
            is_monitor: self.is_monitor,
        }
    }
}

/// Applies one line to the parser state, exactly as `clients_step` says.
#[verifier::rlimit(30)]
fn clients_step_exec(acc: &mut ClientsAcc, line: &String) -> (r: Result<(), ParseError>)
    ensures
        match r {
            Ok(_) => clients_step(old(acc)@, line@) == Ok::<ClientsState, ErrView>(final(acc)@),
            Err(e) => clients_step(old(acc)@, line@) == Err::<ClientsState, ErrView>(e@),
        },
{
    let sl = match scan_line(line.as_str()) {
        None => {
            return Ok(());
        },
        Some(sl) => sl,
    };
    let key = sl.key.as_str();
    let value = sl.value.as_str();
    if str_eq(key, "index") {
        match parse_u64(value) {
            None => Err(
                ParseError {
                    entity: EntityKind::ClientAssociation,
                    kind: ParseErrorKind::InvalidNumber,
                    line: line.clone(),
                },
            ),
            Some(n) => {
                acc.client_idx = n;
                acc.is_monitor = false;
                proof {
                    assert(acc@ =~= clients_index_step(old(acc)@, value@, line@)->Ok_0);
                }
                Ok(())
            },
        }
    } else if str_eq(key, "source") || str_eq(key, "sink") {
        match index_name_of_value_exec(value) {
            None => Err(
                ParseError {
                    entity: EntityKind::ClientAssociation,
                    kind: ParseErrorKind::MalformedEntityReference,
                    line: line.clone(),
                },
            ),
            Some(p) => {
                acc.ep_idx = p.0;
                acc.is_monitor = ends_with_monitor(p.1.as_str());
                proof {
                    assert(acc@ =~= clients_endpoint_step(old(acc)@, value@, line@)->Ok_0);
                }
                Ok(())
            },
        }
    } else if str_eq(key, "client") {
        if acc.is_monitor {
            return Ok(());
        }
        match index_name_of_value_exec(value) {
            None => Err(
                ParseError {
                    entity: EntityKind::ClientAssociation,
                    kind: ParseErrorKind::MalformedEntityReference,
                    line: line.clone(),
                },
            ),
            Some(p) => {
                if str_eq(p.1.as_str(), "PulseAudio Volume Control") {
                    return Ok(());
                }
                acc.pairs.push((acc.client_idx, acc.ep_idx));
                proof {
                    assert(acc@ =~= clients_client_step(old(acc)@, value@, line@)->Ok_0);
                }
                Ok(())
            },
        }
    } else {
        Ok(())
    }
}

/// Parses stream-listing text into the `(client index, endpoint index)`
/// pairs of the real media streams, in input order: a block contributes
/// its pair when its `client` line is read, and no pair is contributed for
/// a monitor-attached stream or for the volume-control application's own
/// stream.
pub fn parse_client_indexes(text: &str) -> (r: Result<Vec<(u64, u64)>, ParseError>)
    ensures
        match r {
            Ok(pairs) => clients_result(text@) == Ok::<Seq<(u64, u64)>, ErrView>(pairs@),
            Err(e) => clients_result(text@) == Err::<Seq<(u64, u64)>, ErrView>(e@),
        },
{
    let lines = split_trimmed_lines(text);
    let ghost lvs = split_lines(text@);
    let mut acc = ClientsAcc { pairs: Vec::new(), client_idx: 0, ep_idx: 0, is_monitor: false };
    let n = lines.len();
    proof {
        assert(lvs.take(0) =~= Seq::<Seq<char>>::empty());
        assert(acc@ =~= clients_init());
    }
    let mut i: usize = 0;
    while i < n
        invariant
            0 <= i <= n,
            n == lines@.len(),
            lvs == split_lines(text@),
            line_views(lines@) =~= lvs,
            clients_run(lvs.take(i as int)) == Ok::<ClientsState, ErrView>(acc@),
        decreases n - i,
    {
        let ghost lv = lvs[i as int];
        proof {
            assert(lvs.take(i + 1).drop_last() =~= lvs.take(i as int));
            assert(lvs.take(i + 1).last() == lv);
            assert(lines@[i as int]@ == lv);
        }
        match clients_step_exec(&mut acc, &lines[i]) {
            Ok(_) => {},
            Err(e) => {
                proof {
                    lemma_clients_run_err(lvs, i + 1);
                }
                return Err(e);
            },
        }
        i = i + 1;
    }
    proof {
        assert(lvs.take(n as int) =~= lvs);
    }
    Ok(acc.pairs)
}

/// The indices of the clients that are not yet attached to the given
/// endpoint, in listing order: those are the streams a rerouting watchdog
/// has to move.
pub open spec fn moves_spec(pairs: Seq<(u64, u64)>, endpoint: u64) -> Seq<u64>
    decreases pairs.len(),
{
    if pairs.len() == 0 {
        Seq::empty()
    } else {
        moves_spec(pairs.drop_last(), endpoint) + if pairs.last().1 != endpoint {
            seq![pairs.last().0]
        } else {
            Seq::empty()
        }
    }
}

/// Picks the clients that still have to be moved to the given endpoint.
pub fn clients_to_move(pairs: &Vec<(u64, u64)>, endpoint: u64) -> (r: Vec<u64>)
    ensures
        r@ == moves_spec(pairs@, endpoint),
{
    let n = pairs.len();
    let mut out: Vec<u64> = Vec::new();
    proof {
        assert(pairs@.take(0) =~= Seq::<(u64, u64)>::empty());
        assert(out@ =~= moves_spec(pairs@.take(0), endpoint));
    }
    let mut i: usize = 0;
    while i < n
        invariant
            0 <= i <= n,
            n == pairs@.len(),
            out@ == moves_spec(pairs@.take(i as int), endpoint),
        decreases n - i,
    {
        proof {
            assert(pairs@.take(i + 1).drop_last() =~= pairs@.take(i as int));
            assert(pairs@.take(i + 1).last() == pairs@[i as int]);
        }
        let p = pairs[i];
        if p.1 != endpoint {
            out.push(p.0);
        }
        proof {
            assert(out@ =~= moves_spec(pairs@.take(i + 1), endpoint));
        }
        i = i + 1;
    }
    proof {
        assert(pairs@.take(n as int) =~= pairs@);
    }
    out
}


/// Exclusion law of the client parser: a `client` line appends nothing
/// while the stream is marked as a monitor stream, appends nothing when
/// the client is the volume-control application's own connection, and on
/// any other well-formed `client` line appends exactly the pending pair.
pub proof fn lemma_client_line_exclusions(st: ClientsState, v: Seq<char>, line: Seq<char>)
    ensures
        st.is_monitor ==> clients_client_step(st, v, line) == Ok::<ClientsState, ErrView>(st),
        (!st.is_monitor && (index_name_of_value(v) matches Some(p) && p.1
            == "PulseAudio Volume Control"@)) ==> clients_client_step(st, v, line) == Ok::<
            ClientsState,
            ErrView,
        >(st),
        (!st.is_monitor && (index_name_of_value(v) matches Some(p) && p.1
            != "PulseAudio Volume Control"@)) ==> clients_client_step(st, v, line) == Ok::<
            ClientsState,
            ErrView,
        >(ClientsState { pairs: st.pairs.push((st.client_idx, st.ep_idx)), ..st }),
{
}


/// Whether a line leaves the current stream block open: it is neither an
/// `index` line nor a `source`/`sink` line.
pub open spec fn keeps_stream_block(l: Seq<char>) -> bool {
    match scan_spec(l) {
        Some(sc) => sc.key != "index"@ && sc.key != "source"@ && sc.key != "sink"@,
        None => true,
    }
}

/// Monitor-stream law: once a `source` or `sink` line has marked the
/// stream as a monitor stream, no pair is appended until another `index`,
/// `source` or `sink` line changes the block: the parser's output is
/// unchanged over any such stretch.
pub proof fn lemma_monitor_stream_excluded(lines: Seq<Seq<char>>, m: int, k: int)
    requires
        0 <= m < k <= lines.len(),
        clients_run(lines.take(m + 1)) is Ok,
        clients_run(lines.take(m + 1))->Ok_0.is_monitor,
        forall|j: int| m < j < k ==> #[trigger] keeps_stream_block(lines[j]),
    ensures
        clients_run(lines.take(k)) is Ok,
        clients_run(lines.take(k))->Ok_0.is_monitor,
        clients_run(lines.take(k))->Ok_0.pairs == clients_run(lines.take(m + 1))->Ok_0.pairs,
    decreases k - m,
{
    if k == m + 1 {
    } else {
        lemma_monitor_stream_excluded(lines, m, k - 1);
        assert(lines.take(k).drop_last() =~= lines.take(k - 1));
        assert(lines.take(k).last() == lines[k - 1]);
        assert(keeps_stream_block(lines[k - 1]));
        let st = clients_run(lines.take(k - 1))->Ok_0;
        assert(clients_step(st, lines[k - 1]) == Ok::<ClientsState, ErrView>(st));
    }
}

} // verus!
