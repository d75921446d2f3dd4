//! The endpoint parser: consumes source- or sink-listing text and produces
//! one `CardDevice` per `index` block, normalizing the first channel's
//! volume and discarding monitor pseudo-endpoints.

use vstd::prelude::*;
use vstd::string::*;

use crate::parse_error::{EntityKind, ErrView, ParseError, ParseErrorKind};
use crate::scan::{scan_line, scan_spec};
use crate::text::{
    find_class, find_from, is_digit, lemma_find_class_sub, line_views, parse_u64, parse_u64_spec,
    split_lines, split_trimmed_lines, str_eq, CharClass,
};
use crate::util::{unquote_parsed_string_value, unquote_spec};

use super::a2dp_codec::{a2dp_codec_of_token, A2DPCodec};
use super::bluetooth_protocol::{bluetooth_protocol_of_token, BluetoothProtocol};
use super::bus::{bus_of_token, Bus};
use super::card_device::{card_device_default_view, volume_pct, CardDevice, CardDeviceView};
use super::device_state::{device_state_of_token, DeviceState};
use super::form_factor::{form_factor_of_token, FormFactor};

verus! {

/// The normalized volume a `volume` line's value denotes: the first
/// integer after the `label:` prefix, read as a share of 65535 and rounded
/// to a whole percentage point. `None` when the value has no such shape.
pub open spec fn volume_of_value(v: Seq<char>) -> Option<u64> {
    let i = find_class(v, CharClass::Colon);
    if i <= 0 {
        None
    } else {
        let after = v.subrange(i + 1, v.len() as int);
        let j = find_class(after, CharClass::NonSpace);
        if j < 0 || !is_digit(after[j]) {
            None
        } else {
            let k = find_class(after.subrange(j, after.len() as int), CharClass::NonDigit);
            let digits = if k < 0 {
                after.subrange(j, after.len() as int)
            } else {
                after.subrange(j, j + k)
            };
            match parse_u64_spec(digits) {
                None => None,
                Some(raw) => Some(volume_pct(raw as nat) as u64),
            }
        }
    }
}

/// Reads a `volume` line's value: the raw first-channel value after the
/// channel label, as a whole percentage point.
pub fn volume_of_value_exec(v: &str) -> (r: Option<u64>)
    ensures
        r == volume_of_value(v@),
{
    let n = v.unicode_len();
    let colon = find_from(v, 0, CharClass::Colon);
    proof {
        assert(v@.subrange(0, n as int) =~= v@);
        lemma_find_class_sub(v@, 0, n as int, CharClass::Colon, colon);
    }
    let i = match colon {
        None => {
            return None;
        },
        Some(i) => i,
    };
    if i == 0 {
        return None;
    }
    let ghost after = v@.subrange(i + 1, n as int);
    let nonspace = find_from(v, i + 1, CharClass::NonSpace);
    proof {
        lemma_find_class_sub(v@, i + 1, n as int, CharClass::NonSpace, nonspace);
    }
    let j = match nonspace {
        None => {
            return None;
        },
        Some(j) => j,
    };
    proof {
        assert(after[j - (i + 1)] == v@[j as int]);
    }
    let c = v.get_char(j);
    if !('0' <= c && c <= '9') {
        return None;
    }
    let nondigit = find_from(v, j, CharClass::NonDigit);
    proof {
        lemma_find_class_sub(v@, j as int, n as int, CharClass::NonDigit, nondigit);
        assert(after.subrange(j - (i + 1), after.len() as int) =~= v@.subrange(j as int, n as int));
    }
    let end = match nondigit {
        None => n,
        Some(k) => k,
    };
    let digits = v.substring_char(j, end);
    proof {
        let jj = j - (i + 1) as int;
        let k = find_class(after.subrange(jj, after.len() as int), CharClass::NonDigit);
        if k >= 0 {
            assert(after.subrange(jj, jj + k) =~= v@.subrange(j as int, j + k));
        } else {
            assert(after.subrange(jj, after.len() as int) =~= v@.subrange(j as int, n as int));
        }
    }
    match parse_u64(digits) {
        None => None,
        Some(raw) => Some(pct_of_raw(raw)),
    }
}

/// Rescales a raw channel value out of 65535 to a whole percentage point.
fn pct_of_raw(raw: u64) -> (r: u64)
    ensures
        r as nat == volume_pct(raw as nat),
{
    proof {
        assert((raw as nat * 200 + 65535) / 131070 <= u64::MAX as nat) by (nonlinear_arith)
            requires
                raw <= u64::MAX,
        ;
    }
    ((raw as u128 * 200 + 65535) / 131070) as u64
}

/// The state the endpoint parser carries from line to line.
#[verifier::ext_equal]
pub ghost struct DevicesState {
    pub emitted: Seq<CardDeviceView>,
    pub cur: Option<CardDeviceView>,
}

pub open spec fn devices_init() -> DevicesState {
    DevicesState { emitted: Seq::empty(), cur: None }
}

pub open spec fn opt_device_seq(c: Option<CardDeviceView>) -> Seq<CardDeviceView> {
    match c {
        None => Seq::empty(),
        Some(v) => seq![v],
    }
}

pub open spec fn device_err(kind: ParseErrorKind, line: Seq<char>) -> ErrView {
    ErrView { entity: EntityKind::Endpoint, kind, line }
}

/// An `index` line: the open endpoint, if any, is emitted, and a fresh one
/// is opened under the given index; a `*` marker makes it the default.
pub open spec fn devices_index_step(
    st: DevicesState,
    value: Seq<char>,
    starred: bool,
    line: Seq<char>,
) -> Result<DevicesState, ErrView> {
    match parse_u64_spec(value) {
        None => Err(device_err(ParseErrorKind::InvalidNumber, line)),
        Some(n) => Ok(
            DevicesState {
                emitted: st.emitted + opt_device_seq(st.cur),
                cur: Some(
                    CardDeviceView { index: n, is_default: starred, ..card_device_default_view() },
                ),
            },
        ),
    }
}

/// A `card` line: the endpoint's owning card is the integer before the
/// first blank of the value.
pub open spec fn devices_card_step(st: DevicesState, value: Seq<char>, line: Seq<char>) -> Result<
    DevicesState,
    ErrView,
> {
    match st.cur {
        None => Ok(st),
        Some(c) => {
            let i = find_class(value, CharClass::Space);
            let tok = if i < 0 {
                value
            } else {
                value.subrange(0, i)
            };
            match parse_u64_spec(tok) {
                None => Err(device_err(ParseErrorKind::InvalidNumber, line)),
                Some(n) => Ok(DevicesState { cur: Some(CardDeviceView { card_index: n, ..c }), ..st }),
            }
        },
    }
}

/// A `volume` line: the first channel's raw value, as a percentage point.
pub open spec fn devices_volume_step(st: DevicesState, value: Seq<char>, line: Seq<char>) -> Result<
    DevicesState,
    ErrView,
> {
    match st.cur {
        None => Ok(st),
        Some(c) => match volume_of_value(value) {
            None => Err(device_err(ParseErrorKind::InvalidNumber, line)),
            Some(p) => Ok(DevicesState { cur: Some(CardDeviceView { volume: p, ..c }), ..st }),
        },
    }
}

/// A field-setting line of the given kind: sets the unquoted (or raw)
/// value on the open endpoint, if any.
pub open spec fn devices_name_step(st: DevicesState, v: Seq<char>) -> DevicesState {
    match st.cur {
        None => st,
        Some(c) => DevicesState { cur: Some(CardDeviceView { name: unquote_spec(v), ..c }), ..st },
    }
}

pub open spec fn devices_driver_step(st: DevicesState, v: Seq<char>) -> DevicesState {
    match st.cur {
        None => st,
        Some(c) => DevicesState { cur: Some(CardDeviceView { driver: unquote_spec(v), ..c }), ..st },
    }
}

pub open spec fn devices_description_step(st: DevicesState, v: Seq<char>) -> DevicesState {
    match st.cur {
        None => st,
        Some(c) => DevicesState {
            cur: Some(CardDeviceView { description: unquote_spec(v), ..c }),
            ..st
        },
    }
}

/// A `muted` line: muted exactly when the raw value is `yes`.
pub open spec fn devices_muted_step(st: DevicesState, v: Seq<char>) -> DevicesState {
    match st.cur {
        None => st,
        Some(c) => DevicesState { cur: Some(CardDeviceView { is_muted: v == "yes"@, ..c }), ..st },
    }
}

/// A `device.form_factor` line: the unquoted value must be a known token.
pub open spec fn devices_form_factor_step(st: DevicesState, v: Seq<char>, line: Seq<char>) -> Result<
    DevicesState,
    ErrView,
> {
    match st.cur {
        None => Ok(st),
        Some(c) => match form_factor_of_token(unquote_spec(v)) {
            None => Err(device_err(ParseErrorKind::UnknownToken, line)),
            Some(f) => Ok(DevicesState { cur: Some(CardDeviceView { form_factor: f, ..c }), ..st }),
        },
    }
}

/// A `state` line: the raw value must be a known lifecycle token.
pub open spec fn devices_state_step(st: DevicesState, v: Seq<char>, line: Seq<char>) -> Result<
    DevicesState,
    ErrView,
> {
    match st.cur {
        None => Ok(st),
        Some(c) => match device_state_of_token(v) {
            None => Err(device_err(ParseErrorKind::UnknownToken, line)),
            Some(d) => Ok(DevicesState { cur: Some(CardDeviceView { state: d, ..c }), ..st }),
        },
    }
}

/// A `bluetooth.protocol` line: the unquoted value must be a known token.
pub open spec fn devices_bt_protocol_step(st: DevicesState, v: Seq<char>, line: Seq<char>) -> Result<
    DevicesState,
    ErrView,
> {
    match st.cur {
        None => Ok(st),
        Some(c) => match bluetooth_protocol_of_token(unquote_spec(v)) {
            None => Err(device_err(ParseErrorKind::UnknownToken, line)),
            Some(p) => Ok(
                DevicesState { cur: Some(CardDeviceView { bluetooth_protocol: Some(p), ..c }), ..st },
            ),
        },
    }
}

/// A `bluetooth.a2dp_codec` line: the unquoted value must be a known token.
pub open spec fn devices_a2dp_codec_step(st: DevicesState, v: Seq<char>, line: Seq<char>) -> Result<
    DevicesState,
    ErrView,
> {
    match st.cur {
        None => Ok(st),
        Some(c) => match a2dp_codec_of_token(unquote_spec(v)) {
            None => Err(device_err(ParseErrorKind::UnknownToken, line)),
            Some(a) => Ok(
                DevicesState { cur: Some(CardDeviceView { a2dp_codec: Some(a), ..c }), ..st },
            ),
        },
    }
}

/// A `device.bus` line: the unquoted value must be a known token.
pub open spec fn devices_bus_step(st: DevicesState, v: Seq<char>, line: Seq<char>) -> Result<
    DevicesState,
    ErrView,
> {
    match st.cur {
        None => Ok(st),
        Some(c) => match bus_of_token(unquote_spec(v)) {
            None => Err(device_err(ParseErrorKind::UnknownToken, line)),
            Some(b) => Ok(DevicesState { cur: Some(CardDeviceView { bus: b, ..c }), ..st }),
        },
    }
}

/// What one line does to the endpoint parser's state. Lines that match no
/// key/value shape, unrecognized keys, and field lines arriving before any
/// `index` has opened an endpoint are ignored; `monitor_of` discards the
/// open endpoint without emitting it.
pub open spec fn devices_step(st: DevicesState, line: Seq<char>) -> Result<DevicesState, ErrView> {
    match scan_spec(line) {
        None => Ok(st),
        Some(sc) => {
            let k = sc.key;
            let v = sc.value;
            if k == "index"@ {
                devices_index_step(st, v, sc.starred, line)
            } else if k == "name"@ {
                Ok(devices_name_step(st, v))
            } else if k == "driver"@ {
                Ok(devices_driver_step(st, v))
            } else if k == "device.description"@ {
                Ok(devices_description_step(st, v))
            } else if k == "muted"@ {
                Ok(devices_muted_step(st, v))
            } else if k == "card"@ {
                devices_card_step(st, v, line)
            } else if k == "device.form_factor"@ {
                devices_form_factor_step(st, v, line)
            } else if k == "state"@ {
                devices_state_step(st, v, line)
            } else if k == "volume"@ {
                devices_volume_step(st, v, line)
            } else if k == "bluetooth.protocol"@ {
                devices_bt_protocol_step(st, v, line)
            } else if k == "bluetooth.a2dp_codec"@ {
                devices_a2dp_codec_step(st, v, line)
            } else if k == "device.bus"@ {
                devices_bus_step(st, v, line)
            } else if k == "monitor_of"@ {
                Ok(DevicesState { cur: None, ..st })
            } else {
                Ok(st)
            }
        },
    }
}

/// The state after the given lines, or the first fatal failure.
pub open spec fn devices_run(lines: Seq<Seq<char>>) -> Result<DevicesState, ErrView>
    decreases lines.len(),
{
    if lines.len() == 0 {
        Ok(devices_init())
    } else {
        match devices_run(lines.drop_last()) {
            Err(e) => Err(e),
            Ok(st) => devices_step(st, lines.last()),
        }
    }
}

/// What parsing a whole endpoint listing yields: the emitted endpoints
/// followed by the still-open one, in input order.
pub open spec fn devices_result(text: Seq<char>) -> Result<Seq<CardDeviceView>, ErrView> {
    match devices_run(split_lines(text)) {
        Err(e) => Err(e),
        Ok(st) => Ok(st.emitted + opt_device_seq(st.cur)),
    }
}

/// A failure reached on a prefix of the lines is the failure of the whole
/// run.
pub proof fn lemma_devices_run_err(lines: Seq<Seq<char>>, i: int)
    requires
        0 <= i <= lines.len(),
        devices_run(lines.take(i)) is Err,
    ensures
        devices_run(lines) == devices_run(lines.take(i)),
    decreases lines.len() - i,
{
    if i == lines.len() {
        assert(lines.take(i) =~= lines);
    } else {
        assert(lines.take(i + 1).drop_last() =~= lines.take(i));
        lemma_devices_run_err(lines, i + 1);
    }
}

/// The views of a vector of endpoints.
pub open spec fn device_views(s: Seq<CardDevice>) -> Seq<CardDeviceView> {
    s.map_values(|d: CardDevice| d@)
}

/// The working state of the exec parser.
pub struct DevicesAcc {
    pub devices: Vec<CardDevice>,
    pub cur: Option<CardDevice>,
}

impl View for DevicesAcc {
    type V = DevicesState;

    open spec fn view(&self) -> DevicesState {
        DevicesState {
            emitted: device_views(self.devices@),
            cur: match self.cur {
                None => None,
                Some(c) => Some(c@),
            },
        }
    }
}

fn device_parse_error(kind: ParseErrorKind, line: &String) -> (e: ParseError)
    ensures
        e@ == device_err(kind, line@),
{
    ParseError { entity: EntityKind::Endpoint, kind, line: line.clone() }
}

fn apply_device_index(acc: &mut DevicesAcc, value: &str, starred: bool, line: &String) -> (r:
    Result<(), ParseError>)
    ensures
        match r {
            Ok(_) => devices_index_step(old(acc)@, value@, starred, line@) == Ok::<
                DevicesState,
                ErrView,
            >(final(acc)@),
            Err(e) => devices_index_step(old(acc)@, value@, starred, line@) == Err::<
                DevicesState,
                ErrView,
            >(e@),
        },
{
    match parse_u64(value) {
        None => Err(device_parse_error(ParseErrorKind::InvalidNumber, line)),
        Some(idx) => {
            match acc.cur.take() {
                Some(c) => {
                    acc.devices.push(c);
                },
                None => {},
            }
            proof {
                assert(device_views(acc.devices@) =~= old(acc)@.emitted + opt_device_seq(
                    old(acc)@.cur,
                ));
            }
            let mut c = CardDevice::default();
            c.index = idx;
            c.is_default = starred;
            acc.cur = Some(c);
            proof {
                assert(acc@ =~= devices_index_step(old(acc)@, value@, starred, line@)->Ok_0);
            }
            Ok(())
        },
    }
}

fn apply_device_card(acc: &mut DevicesAcc, value: &str, line: &String) -> (r: Result<
    (),
    ParseError,
>)
    ensures
        match r {
            Ok(_) => devices_card_step(old(acc)@, value@, line@) == Ok::<DevicesState, ErrView>(
                final(acc)@,
            ),
            Err(e) => devices_card_step(old(acc)@, value@, line@) == Err::<DevicesState, ErrView>(
                e@,
            ),
        },
{
    match acc.cur.take() {
        None => {
            proof {
                assert(acc@ =~= devices_card_step(old(acc)@, value@, line@)->Ok_0);
            }
            Ok(())
        },
        Some(mut c) => {
            let n = value.unicode_len();
            let space = find_from(value, 0, CharClass::Space);
            proof {
                assert(value@.subrange(0, n as int) =~= value@);
                lemma_find_class_sub(value@, 0, n as int, CharClass::Space, space);
            }
            let end = match space {
                None => n,
                Some(i) => i,
            };
            let tok = value.substring_char(0, end);
            match parse_u64(tok) {
                None => {
                    acc.cur = Some(c);
                    Err(device_parse_error(ParseErrorKind::InvalidNumber, line))
                },
                Some(idx) => {
                    c.card_index = idx;
                    acc.cur = Some(c);
                    proof {
                        assert(acc@ =~= devices_card_step(old(acc)@, value@, line@)->Ok_0);
                    }
                    Ok(())
                },
            }
        },
    }
}

fn apply_device_name(acc: &mut DevicesAcc, value: &str)
    ensures
        final(acc)@ == devices_name_step(old(acc)@, value@),
{
    match acc.cur.take() {
        Some(mut c) => {
            c.name = unquote_parsed_string_value(value);
            acc.cur = Some(c);
        },
        None => {},
    }
    proof {
        assert(acc@ =~= devices_name_step(old(acc)@, value@));
    }
}

fn apply_device_driver(acc: &mut DevicesAcc, value: &str)
    ensures
        final(acc)@ == devices_driver_step(old(acc)@, value@),
{
    match acc.cur.take() {
        Some(mut c) => {
            c.driver = unquote_parsed_string_value(value);
            acc.cur = Some(c);
        },
        None => {},
    }
    proof {
        assert(acc@ =~= devices_driver_step(old(acc)@, value@));
    }
}

fn apply_device_description(acc: &mut DevicesAcc, value: &str)
    ensures
        final(acc)@ == devices_description_step(old(acc)@, value@),
{
    match acc.cur.take() {
        Some(mut c) => {
            c.description = unquote_parsed_string_value(value);
            acc.cur = Some(c);
        },
        None => {},
    }
    proof {
        assert(acc@ =~= devices_description_step(old(acc)@, value@));
    }
}

fn apply_device_muted(acc: &mut DevicesAcc, value: &str)
    ensures
        final(acc)@ == devices_muted_step(old(acc)@, value@),
{
    match acc.cur.take() {
        Some(mut c) => {
            c.is_muted = str_eq(value, "yes");
            acc.cur = Some(c);
        },
        None => {},
    }
    proof {
        assert(acc@ =~= devices_muted_step(old(acc)@, value@));
    }
}

fn apply_device_form_factor(acc: &mut DevicesAcc, value: &str, line: &String) -> (r: Result<
    (),
    ParseError,
>)
    ensures
        match r {
            Ok(_) => devices_form_factor_step(old(acc)@, value@, line@) == Ok::<
                DevicesState,
                ErrView,
            >(final(acc)@),
            Err(e) => devices_form_factor_step(old(acc)@, value@, line@) == Err::<
                DevicesState,
                ErrView,
            >(e@),
        },
{
    match acc.cur.take() {
        None => {
            proof {
                assert(acc@ =~= devices_form_factor_step(old(acc)@, value@, line@)->Ok_0);
            }
            Ok(())
        },
        Some(mut c) => {
            let unq = unquote_parsed_string_value(value);
            match FormFactor::try_from_pa_str(unq.as_str()) {
                None => {
                    acc.cur = Some(c);
                    Err(device_parse_error(ParseErrorKind::UnknownToken, line))
                },
                Some(f) => {
                    c.form_factor = f;
                    acc.cur = Some(c);
                    proof {
                        assert(acc@ =~= devices_form_factor_step(old(acc)@, value@, line@)->Ok_0);
                    }
                    Ok(())
                },
            }
        },
    }
}

fn apply_device_state(acc: &mut DevicesAcc, value: &str, line: &String) -> (r: Result<
    (),
    ParseError,
>)
    ensures
        match r {
            Ok(_) => devices_state_step(old(acc)@, value@, line@) == Ok::<DevicesState, ErrView>(
                final(acc)@,
            ),
            Err(e) => devices_state_step(old(acc)@, value@, line@) == Err::<DevicesState, ErrView>(
                e@,
            ),
        },
{
    match acc.cur.take() {
        None => {
            proof {
                assert(acc@ =~= devices_state_step(old(acc)@, value@, line@)->Ok_0);
            }
            Ok(())
        },
        Some(mut c) => {
            match DeviceState::try_from_pa_str(value) {
                None => {
                    acc.cur = Some(c);
                    Err(device_parse_error(ParseErrorKind::UnknownToken, line))
                },
                Some(d) => {
                    c.state = d;
                    acc.cur = Some(c);
                    proof {
                        assert(acc@ =~= devices_state_step(old(acc)@, value@, line@)->Ok_0);
                    }
                    Ok(())
                },
            }
        },
    }
}

fn apply_device_volume(acc: &mut DevicesAcc, value: &str, line: &String) -> (r: Result<
    (),
    ParseError,
>)
    ensures
        match r {
            Ok(_) => devices_volume_step(old(acc)@, value@, line@) == Ok::<DevicesState, ErrView>(
                final(acc)@,
            ),
            Err(e) => devices_volume_step(old(acc)@, value@, line@) == Err::<
                DevicesState,
                ErrView,
            >(e@),
        },
{
    match acc.cur.take() {
        None => {
            proof {
                assert(acc@ =~= devices_volume_step(old(acc)@, value@, line@)->Ok_0);
            }
            Ok(())
        },
        Some(mut c) => {
            match volume_of_value_exec(value) {
                None => {
                    acc.cur = Some(c);
                    Err(device_parse_error(ParseErrorKind::InvalidNumber, line))
                },
                Some(p) => {
                    c.volume = p;
                    acc.cur = Some(c);
                    proof {
                        assert(acc@ =~= devices_volume_step(old(acc)@, value@, line@)->Ok_0);
                    }
                    Ok(())
                },
            }
        },
    }
}

fn apply_device_bt_protocol(acc: &mut DevicesAcc, value: &str, line: &String) -> (r: Result<
    (),
    ParseError,
>)
    ensures
        match r {
            Ok(_) => devices_bt_protocol_step(old(acc)@, value@, line@) == Ok::<
                DevicesState,
                ErrView,
            >(final(acc)@),
            Err(e) => devices_bt_protocol_step(old(acc)@, value@, line@) == Err::<
                DevicesState,
                ErrView,
            >(e@),
        },
{
    match acc.cur.take() {
        None => {
            proof {
                assert(acc@ =~= devices_bt_protocol_step(old(acc)@, value@, line@)->Ok_0);
            }
            Ok(())
        },
        Some(mut c) => {
            let unq = unquote_parsed_string_value(value);
            match BluetoothProtocol::try_from_pa_str(unq.as_str()) {
                None => {
                    acc.cur = Some(c);
                    Err(device_parse_error(ParseErrorKind::UnknownToken, line))
                },
                Some(p) => {
                    c.bluetooth_protocol = Some(p);
                    acc.cur = Some(c);
                    proof {
                        assert(acc@ =~= devices_bt_protocol_step(old(acc)@, value@, line@)->Ok_0);
                    }
                    Ok(())
                },
            }
        },
    }
}

fn apply_device_a2dp_codec(acc: &mut DevicesAcc, value: &str, line: &String) -> (r: Result<
    (),
    ParseError,
>)
    ensures
        match r {
            Ok(_) => devices_a2dp_codec_step(old(acc)@, value@, line@) == Ok::<
                DevicesState,
                ErrView,
            >(final(acc)@),
            Err(e) => devices_a2dp_codec_step(old(acc)@, value@, line@) == Err::<
                DevicesState,
                ErrView,
            >(e@),
        },
{
    match acc.cur.take() {
        None => {
            proof {
                assert(acc@ =~= devices_a2dp_codec_step(old(acc)@, value@, line@)->Ok_0);
            }
            Ok(())
        },
        Some(mut c) => {
            let unq = unquote_parsed_string_value(value);
            match A2DPCodec::try_from_pa_str(unq.as_str()) {
                None => {
                    acc.cur = Some(c);
                    Err(device_parse_error(ParseErrorKind::UnknownToken, line))
                },
                Some(a) => {
                    c.a2dp_codec = Some(a);
                    acc.cur = Some(c);
                    proof {
                        assert(acc@ =~= devices_a2dp_codec_step(old(acc)@, value@, line@)->Ok_0);
                    }
                    Ok(())
                },
            }
        },
    }
}

fn apply_device_bus(acc: &mut DevicesAcc, value: &str, line: &String) -> (r: Result<(), ParseError>)
    ensures
        match r {
            Ok(_) => devices_bus_step(old(acc)@, value@, line@) == Ok::<DevicesState, ErrView>(
                final(acc)@,
            ),
            Err(e) => devices_bus_step(old(acc)@, value@, line@) == Err::<DevicesState, ErrView>(
                e@,
            ),
        },
{
    match acc.cur.take() {
        None => {
            proof {
                assert(acc@ =~= devices_bus_step(old(acc)@, value@, line@)->Ok_0);
            }
            Ok(())
        },
        Some(mut c) => {
            let unq = unquote_parsed_string_value(value);
            match Bus::try_from_pa_str(unq.as_str()) {
                None => {
                    acc.cur = Some(c);
                    Err(device_parse_error(ParseErrorKind::UnknownToken, line))
                },
                Some(b) => {
                    c.bus = b;
                    acc.cur = Some(c);
                    proof {
                        assert(acc@ =~= devices_bus_step(old(acc)@, value@, line@)->Ok_0);
                    }
                    Ok(())
                },
            }
        },
    }
}

/// Applies one line to the parser state, exactly as `devices_step` says.
#[verifier::rlimit(60)]
fn devices_step_exec(acc: &mut DevicesAcc, line: &String) -> (r: Result<(), ParseError>)
    ensures
        match r {
            Ok(_) => devices_step(old(acc)@, line@) == Ok::<DevicesState, ErrView>(final(acc)@),
            Err(e) => devices_step(old(acc)@, line@) == Err::<DevicesState, ErrView>(e@),
        },
{
    let sl = match scan_line(line.as_str()) {
        None => {
            return Ok(());
        },
        Some(sl) => sl,
    };
    let key = sl.key.as_str();
    let value = sl.value.as_str();
    if str_eq(key, "index") {
        apply_device_index(acc, value, sl.starred, line)
    } else if str_eq(key, "name") {
        apply_device_name(acc, value);
        Ok(())
    } else if str_eq(key, "driver") {
        apply_device_driver(acc, value);
        Ok(())
    } else if str_eq(key, "device.description") {
        apply_device_description(acc, value);
        Ok(())
    } else if str_eq(key, "muted") {
        apply_device_muted(acc, value);
        Ok(())
    } else if str_eq(key, "card") {
        apply_device_card(acc, value, line)
    } else if str_eq(key, "device.form_factor") {
        apply_device_form_factor(acc, value, line)
    } else if str_eq(key, "state") {
        apply_device_state(acc, value, line)
    } else if str_eq(key, "volume") {
        apply_device_volume(acc, value, line)
    } else if str_eq(key, "bluetooth.protocol") {
        apply_device_bt_protocol(acc, value, line)
    } else if str_eq(key, "bluetooth.a2dp_codec") {
        apply_device_a2dp_codec(acc, value, line)
    } else if str_eq(key, "device.bus") {
        apply_device_bus(acc, value, line)
    } else if str_eq(key, "monitor_of") {
        acc.cur = None;
        proof {
            assert(acc@ =~= DevicesState { cur: None, ..old(acc)@ });
        }
        Ok(())
    } else {
        Ok(())
    }
}

/// Parses source- or sink-listing text into one `CardDevice` per `index`
/// block, in input order, leaving out every block that reveals itself as a
/// monitor pseudo-endpoint; fails on the first number or closed-set token
/// that cannot be read, and then yields no endpoints at all.
pub fn parse_card_devices(text: &str) -> (r: Result<Vec<CardDevice>, ParseError>)
    ensures
        match r {
            Ok(devices) => devices_result(text@) == Ok::<Seq<CardDeviceView>, ErrView>(
                device_views(devices@),
            ),
            Err(e) => devices_result(text@) == Err::<Seq<CardDeviceView>, ErrView>(e@),
        },
{
    let lines = split_trimmed_lines(text);
    let ghost lvs = split_lines(text@);
    let mut acc = DevicesAcc { devices: Vec::new(), cur: None };
    let n = lines.len();
    proof {
        assert(lvs.take(0) =~= Seq::<Seq<char>>::empty());
        assert(acc@ =~= devices_init());
    }
    let mut i: usize = 0;
    while i < n
        invariant
            0 <= i <= n,
            n == lines@.len(),
            lvs == split_lines(text@),
            line_views(lines@) =~= lvs,
            devices_run(lvs.take(i as int)) == Ok::<DevicesState, ErrView>(acc@),
        decreases n - i,
    {
        let ghost lv = lvs[i as int];
        proof {
            assert(lvs.take(i + 1).drop_last() =~= lvs.take(i as int));
            assert(lvs.take(i + 1).last() == lv);
            assert(lines@[i as int]@ == lv);
        }
        match devices_step_exec(&mut acc, &lines[i]) {
            Ok(_) => {},
            Err(e) => {
                proof {
                    lemma_devices_run_err(lvs, i + 1);
                }
                return Err(e);
            },
        }
        i = i + 1;
    }
    proof {
        assert(lvs.take(n as int) =~= lvs);
    }
    let ghost stf = acc@;
    let mut devices = acc.devices;
    match acc.cur {
        Some(c) => {
            devices.push(c);
        },
        None => {},
    }
    proof {
        assert(device_views(devices@) =~= stf.emitted + opt_device_seq(stf.cur));
    }
    Ok(devices)
}


/// Whether a line would open a new endpoint block.
pub open spec fn is_index_line(l: Seq<char>) -> bool {
    match scan_spec(l) {
        Some(sc) => sc.key == "index"@,
        None => false,
    }
}

/// Whether a line is a `monitor_of` line.
pub open spec fn is_monitor_of_line(l: Seq<char>) -> bool {
    match scan_spec(l) {
        Some(sc) => sc.key == "monitor_of"@,
        None => false,
    }
}

/// With no endpoint open, every line but an `index` line leaves the
/// parser's state untouched and cannot fail.
pub proof fn lemma_devices_step_no_cur(st: DevicesState, line: Seq<char>)
    requires
        st.cur is None,
        !is_index_line(line),
    ensures
        devices_step(st, line) == Ok::<DevicesState, ErrView>(st),
{
    assert(DevicesState { cur: None, ..st } =~= st);
}

/// A `monitor_of` line discards the open endpoint and emits nothing.
pub proof fn lemma_devices_step_monitor(st: DevicesState, line: Seq<char>)
    requires
        is_monitor_of_line(line),
    ensures
        devices_step(st, line) == Ok::<DevicesState, ErrView>(
            DevicesState { cur: None, ..st },
        ),
{
    reveal_strlit("monitor_of");
    reveal_strlit("index");
    reveal_strlit("name");
    reveal_strlit("driver");
    reveal_strlit("device.description");
    reveal_strlit("muted");
    reveal_strlit("card");
    reveal_strlit("device.form_factor");
    reveal_strlit("state");
    reveal_strlit("volume");
    reveal_strlit("bluetooth.protocol");
    reveal_strlit("bluetooth.a2dp_codec");
    reveal_strlit("device.bus");
    match scan_spec(line) {
        None => {
            assert(false);
        },
        Some(sc) => {
            assert(sc.key == "monitor_of"@);
            assert(sc.key != "index"@);
            assert(sc.key != "name"@);
            assert(sc.key != "driver"@);
            assert(sc.key != "device.description"@);
            assert(sc.key != "muted"@);
            assert(sc.key != "card"@);
            assert(sc.key != "device.form_factor"@);
            assert(sc.key != "state"@);
            assert(sc.key != "volume"@);
            assert(sc.key != "bluetooth.protocol"@);
            assert(sc.key != "bluetooth.a2dp_codec"@);
            assert(sc.key != "device.bus"@) by {
                assert("monitor_of"@[0] == 'm');
                assert("device.bus"@[0] == 'd');
            }
            assert(devices_step(st, line) == Ok::<DevicesState, ErrView>(
                DevicesState { cur: None, ..st },
            ));
        },
    }
}

/// Monitor exclusion law: once a block reveals itself as a monitor
/// pseudo-endpoint through a `monitor_of` line, nothing of that block
/// reaches the output: as long as no further `index` line opens another
/// block, the parser emits nothing more, keeps no open endpoint, and
/// cannot fail.
pub proof fn lemma_monitor_block_excluded(lines: Seq<Seq<char>>, m: int, k: int)
    requires
        0 <= m < k <= lines.len(),
        devices_run(lines.take(m)) is Ok,
        is_monitor_of_line(lines[m]),
        forall|j: int| m < j < k ==> !(#[trigger] is_index_line(lines[j])),
    ensures
        devices_run(lines.take(k)) is Ok,
        devices_run(lines.take(k))->Ok_0.cur is None,
        devices_run(lines.take(k))->Ok_0.emitted == devices_run(lines.take(m))->Ok_0.emitted,
    decreases k - m,
{
    if k == m + 1 {
        assert(lines.take(k).drop_last() =~= lines.take(m));
        assert(lines.take(k).last() == lines[m]);
        lemma_devices_step_monitor(devices_run(lines.take(m))->Ok_0, lines[m]);
    } else {
        lemma_monitor_block_excluded(lines, m, k - 1);
        assert(lines.take(k).drop_last() =~= lines.take(k - 1));
        assert(lines.take(k).last() == lines[k - 1]);
        assert(!is_index_line(lines[k - 1]));
        lemma_devices_step_no_cur(devices_run(lines.take(k - 1))->Ok_0, lines[k - 1]);
    }
}


/// How many of the given endpoints are marked default.
pub open spec fn default_count(s: Seq<CardDeviceView>) -> nat
    decreases s.len(),
{
    if s.len() == 0 {
        0
    } else {
        default_count(s.drop_last()) + if s.last().is_default {
            1nat
        } else {
            0
        }
    }
}

pub open spec fn opt_default(c: Option<CardDeviceView>) -> nat {
    match c {
        None => 0,
        Some(d) => if d.is_default {
            1nat
        } else {
            0
        },
    }
}

/// How many lines are `*`-marked `index` lines.
pub open spec fn starred_count(lines: Seq<Seq<char>>) -> nat
    decreases lines.len(),
{
    if lines.len() == 0 {
        0
    } else {
        starred_count(lines.drop_last()) + match scan_spec(lines.last()) {
            Some(sc) => if sc.key == "index"@ && sc.starred {
                1nat
            } else {
                0
            },
            None => 0,
        }
    }
}

proof fn lemma_default_count_append(s: Seq<CardDeviceView>, c: Option<CardDeviceView>)
    ensures
        default_count(s + opt_device_seq(c)) == default_count(s) + opt_default(c),
{
    match c {
        None => {
            assert(s + opt_device_seq(c) =~= s);
        },
        Some(d) => {
            assert((s + opt_device_seq(c)).drop_last() =~= s);
            assert((s + opt_device_seq(c)).last() == d);
        },
    }
}

/// Default-marking law over a run: the parser never holds more
/// default-marked endpoints, emitted or open, than the input has
/// `*`-marked `index` lines.
pub proof fn lemma_default_count_run(lines: Seq<Seq<char>>)
    requires
        devices_run(lines) is Ok,
    ensures
        default_count(devices_run(lines)->Ok_0.emitted) + opt_default(
            devices_run(lines)->Ok_0.cur,
        ) <= starred_count(lines),
    decreases lines.len(),
{
    if lines.len() == 0 {
    } else {
        let prev = devices_run(lines.drop_last());
        assert(prev is Ok);
        lemma_default_count_run(lines.drop_last());
        let st = prev->Ok_0;
        let line = lines.last();
        match scan_spec(line) {
            None => {},
            Some(sc) => {
                if sc.key == "index"@ {
                    lemma_default_count_append(st.emitted, st.cur);
                }
            },
        }
    }
}

/// Default-marking law: with at most one `*`-marked `index` line in the
/// input, at most one parsed endpoint carries `is_default`.
pub proof fn lemma_at_most_one_default(text: Seq<char>)
    requires
        devices_result(text) is Ok,
        starred_count(split_lines(text)) <= 1,
    ensures
        default_count(devices_result(text)->Ok_0) <= 1,
{
    lemma_default_count_run(split_lines(text));
    let st = devices_run(split_lines(text))->Ok_0;
    lemma_default_count_append(st.emitted, st.cur);
}

} // verus!
