//! The card parser: consumes multi-line card-listing text and produces one
//! `Card` per `index` block, tracking the profile, source and sink
//! sub-sections with explicit flags.

use vstd::prelude::*;
use vstd::string::*;

use crate::parse_error::{EntityKind, ErrView, ParseError, ParseErrorKind};
use crate::scan::{scan_line, scan_spec};
use crate::text::{
    find_class, find_from, lemma_find_class_sub, line_views, parse_u64, parse_u64_spec,
    split_lines, split_trimmed_lines, str_eq, CharClass,
};
use crate::util::{unquote_parsed_string_value, unquote_spec};

use super::bus::{bus_of_token, Bus};
use super::card::{card_default_view, Card, CardView};
use super::card_profile::{card_profile_of_token, CardProfile};
use super::form_factor::{form_factor_of_token, FormFactor};

verus! {

/// The numeric suffix of a `<label>#<integer>` list entry: the digits
/// between the first `#` and the next `#` or the end of the entry.
pub open spec fn hash_suffix(k: Seq<char>) -> Option<u64> {
    let i = find_class(k, CharClass::Hash);
    if i < 0 {
        None
    } else {
        let rest = k.subrange(i + 1, k.len() as int);
        let j = find_class(rest, CharClass::Hash);
        let tok = if j < 0 {
            rest
        } else {
            rest.subrange(0, j)
        };
        parse_u64_spec(tok)
    }
}

/// Reads the numeric suffix of a `<label>#<integer>` list entry.
pub fn hash_suffix_exec(k: &str) -> (r: Option<u64>)
    ensures
        r == hash_suffix(k@),
{
    let n = k.unicode_len();
    let first = find_from(k, 0, CharClass::Hash);
    proof {
        assert(k@.subrange(0, n as int) =~= k@);
        lemma_find_class_sub(k@, 0, n as int, CharClass::Hash, first);
    }
    match first {
        None => None,
        Some(i) => {
            let second = find_from(k, i + 1, CharClass::Hash);
            let ghost rest = k@.subrange(i + 1, n as int);
            proof {
                lemma_find_class_sub(k@, i + 1, n as int, CharClass::Hash, second);
            }
            let end = match second {
                None => n,
                Some(j) => j,
            };
            let tok = k.substring_char(i + 1, end);
            proof {
                if second is Some {
                    let j = second->0;
                    assert(rest.subrange(0, j - (i + 1)) =~= k@.subrange(i + 1, j as int));
                }
            }
            parse_u64(tok)
        },
    }
}

/// The state the card parser carries from line to line.
#[verifier::ext_equal]
pub ghost struct CardsState {
    pub emitted: Seq<CardView>,
    pub cur: Option<CardView>,
    pub in_profiles: bool,
    pub in_sources: bool,
    pub in_sinks: bool,
}

pub open spec fn cards_init() -> CardsState {
    CardsState {
        emitted: Seq::empty(),
        cur: None,
        in_profiles: false,
        in_sources: false,
        in_sinks: false,
    }
}

pub open spec fn opt_card_seq(c: Option<CardView>) -> Seq<CardView> {
    match c {
        None => Seq::empty(),
        Some(v) => seq![v],
    }
}

pub open spec fn card_err(kind: ParseErrorKind, line: Seq<char>) -> ErrView {
    ErrView { entity: EntityKind::Card, kind, line }
}

/// An `index` line: the open card, if any, is emitted, and a fresh one is
/// opened under the given index.
pub open spec fn cards_index_step(st: CardsState, value: Seq<char>, line: Seq<char>) -> Result<
    CardsState,
    ErrView,
> {
    match parse_u64_spec(value) {
        None => Err(card_err(ParseErrorKind::InvalidNumber, line)),
        Some(n) => Ok(
            CardsState {
                emitted: st.emitted + opt_card_seq(st.cur),
                cur: Some(CardView { index: n, ..card_default_view() }),
                ..st
            },
        ),
    }
}

/// A `name` line: sets the unquoted value on the open card, if any.
pub open spec fn cards_name_step(st: CardsState, value: Seq<char>) -> CardsState {
    match st.cur {
        None => st,
        Some(c) => CardsState { cur: Some(CardView { name: unquote_spec(value), ..c }), ..st },
    }
}

/// A `driver` line: sets the unquoted value on the open card, if any.
pub open spec fn cards_driver_step(st: CardsState, value: Seq<char>) -> CardsState {
    match st.cur {
        None => st,
        Some(c) => CardsState { cur: Some(CardView { driver: unquote_spec(value), ..c }), ..st },
    }
}

/// A `device.description` line: sets the unquoted value on the open card,
/// if any.
pub open spec fn cards_description_step(st: CardsState, value: Seq<char>) -> CardsState {
    match st.cur {
        None => st,
        Some(c) => CardsState {
            cur: Some(CardView { description: unquote_spec(value), ..c }),
            ..st
        },
    }
}

/// An `active profile` line: closes the profile section; on a bluetooth
/// card the unquoted value must be a known profile token and is recorded.
pub open spec fn cards_active_profile_step(st: CardsState, value: Seq<char>, line: Seq<char>) -> Result<
    CardsState,
    ErrView,
> {
    let st1 = CardsState { in_profiles: false, ..st };
    match st.cur {
        None => Ok(st1),
        Some(c) => if c.bus == Bus::Bluetooth {
            match card_profile_of_token(unquote_spec(value)) {
                None => Err(card_err(ParseErrorKind::UnknownToken, line)),
                Some(p) => Ok(CardsState { cur: Some(CardView { active_profile: p, ..c }), ..st1 }),
            }
        } else {
            Ok(st1)
        },
    }
}

/// A `device.form_factor` line: the unquoted value must be a known form
/// factor token and is set on the open card, if any.
pub open spec fn cards_form_factor_step(st: CardsState, value: Seq<char>, line: Seq<char>) -> Result<
    CardsState,
    ErrView,
> {
    match st.cur {
        None => Ok(st),
        Some(c) => match form_factor_of_token(unquote_spec(value)) {
            None => Err(card_err(ParseErrorKind::UnknownToken, line)),
            Some(f) => Ok(CardsState { cur: Some(CardView { form_factor: f, ..c }), ..st }),
        },
    }
}

/// A `device.bus` line: the unquoted value must be a known bus token and is
/// set on the open card, if any.
pub open spec fn cards_bus_step(st: CardsState, value: Seq<char>, line: Seq<char>) -> Result<
    CardsState,
    ErrView,
> {
    match st.cur {
        None => Ok(st),
        Some(c) => match bus_of_token(unquote_spec(value)) {
            None => Err(card_err(ParseErrorKind::UnknownToken, line)),
            Some(b) => Ok(CardsState { cur: Some(CardView { bus: b, ..c }), ..st }),
        },
    }
}

/// A bare list entry under an open section: a profile token while the
/// profile section of a bluetooth card is open, and a `<label>#<integer>`
/// endpoint reference while a sink or source section is open.
pub open spec fn cards_entry_step(st: CardsState, k: Seq<char>, line: Seq<char>) -> Result<
    CardsState,
    ErrView,
> {
    match st.cur {
        None => Ok(st),
        Some(c) => {
            let c1r: Result<CardView, ErrView> = if st.in_profiles && c.bus == Bus::Bluetooth {
                match card_profile_of_token(k) {
                    None => Err(card_err(ParseErrorKind::UnknownToken, line)),
                    Some(p) => Ok(CardView { profiles: c.profiles.push(p), ..c }),
                }
            } else {
                Ok(c)
            };
            match c1r {
                Err(e) => Err(e),
                Ok(c1) => if st.in_sinks {
                    match hash_suffix(k) {
                        None => Err(card_err(ParseErrorKind::MalformedEntityReference, line)),
                        Some(id) => Ok(
                            CardsState {
                                cur: Some(CardView { sink_ids: c1.sink_ids.push(id), ..c1 }),
                                ..st
                            },
                        ),
                    }
                } else if st.in_sources {
                    match hash_suffix(k) {
                        None => Err(card_err(ParseErrorKind::MalformedEntityReference, line)),
                        Some(id) => Ok(
                            CardsState {
                                cur: Some(CardView { source_ids: c1.source_ids.push(id), ..c1 }),
                                ..st
                            },
                        ),
                    }
                } else {
                    Ok(CardsState { cur: Some(c1), ..st })
                },
            }
        },
    }
}

/// What one line does to the card parser's state. Lines that match no
/// key/value shape, unrecognized keys outside any section, and field lines
/// arriving before any `index` has opened a card are ignored.
pub open spec fn cards_step(st: CardsState, line: Seq<char>) -> Result<CardsState, ErrView> {
    match scan_spec(line) {
        None => Ok(st),
        Some(sc) => {
            let k = sc.key;
            if k == "index"@ {
                cards_index_step(st, sc.value, line)
            } else if k == "name"@ {
                Ok(cards_name_step(st, sc.value))
            } else if k == "driver"@ {
                Ok(cards_driver_step(st, sc.value))
            } else if k == "device.description"@ {
                Ok(cards_description_step(st, sc.value))
            } else if k == "profiles"@ {
                Ok(CardsState { in_profiles: true, ..st })
            } else if k == "active profile"@ {
                cards_active_profile_step(st, sc.value, line)
            } else if k == "sinks"@ {
                Ok(CardsState { in_sinks: true, in_sources: false, ..st })
            } else if k == "sources"@ {
                Ok(CardsState { in_sources: true, in_sinks: false, ..st })
            } else if k == "ports"@ {
                Ok(CardsState { in_sources: false, ..st })
            } else if k == "device.form_factor"@ {
                cards_form_factor_step(st, sc.value, line)
            } else if k == "device.bus"@ {
                cards_bus_step(st, sc.value, line)
            } else {
                cards_entry_step(st, k, line)
            }
        },
    }
}

/// The state after the given lines, or the first fatal failure.
pub open spec fn cards_run(lines: Seq<Seq<char>>) -> Result<CardsState, ErrView>
    decreases lines.len(),
{
    if lines.len() == 0 {
        Ok(cards_init())
    } else {
        match cards_run(lines.drop_last()) {
            Err(e) => Err(e),
            Ok(st) => cards_step(st, lines.last()),
        }
    }
}

/// What parsing a whole card listing yields: the emitted cards followed by
/// the still-open one, in input order of their `index` lines.
pub open spec fn cards_result(text: Seq<char>) -> Result<Seq<CardView>, ErrView> {
    match cards_run(split_lines(text)) {
        Err(e) => Err(e),
        Ok(st) => Ok(st.emitted + opt_card_seq(st.cur)),
    }
}

/// A failure reached on a prefix of the lines is the failure of the whole
/// run.
pub proof fn lemma_cards_run_err(lines: Seq<Seq<char>>, i: int)
    requires
        0 <= i <= lines.len(),
        cards_run(lines.take(i)) is Err,
    ensures
        cards_run(lines) == cards_run(lines.take(i)),
    decreases lines.len() - i,
{
    if i == lines.len() {
        assert(lines.take(i) =~= lines);
    } else {
        assert(lines.take(i + 1).drop_last() =~= lines.take(i));
        lemma_cards_run_err(lines, i + 1);
    }
}

/// The views of a vector of cards.
pub open spec fn card_views(s: Seq<Card>) -> Seq<CardView> {
    s.map_values(|c: Card| c@)
}

/// The working state of the exec parser.
pub struct CardsAcc {
    pub cards: Vec<Card>,
    pub cur: Option<Card>,
    pub in_profiles: bool,
    pub in_sources: bool,
    pub in_sinks: bool,
}

impl View for CardsAcc {
    type V = CardsState;

    open spec fn view(&self) -> CardsState {
        CardsState {
            emitted: card_views(self.cards@),
            cur: match self.cur {
                None => None,
                Some(c) => Some(c@),
            },
            in_profiles: self.in_profiles,
            in_sources: self.in_sources,
            in_sinks: self.in_sinks,
        }
    }
}

fn card_parse_error(kind: ParseErrorKind, line: &String) -> (e: ParseError)
    ensures
        e@ == card_err(kind, line@),
{
    ParseError { entity: EntityKind::Card, kind, line: line.clone() }
}

fn apply_index(acc: &mut CardsAcc, value: &str, line: &String) -> (r: Result<(), ParseError>)
    ensures
        match r {
            Ok(_) => cards_index_step(old(acc)@, value@, line@) == Ok::<CardsState, ErrView>(
                final(acc)@,
            ),
            Err(e) => cards_index_step(old(acc)@, value@, line@) == Err::<CardsState, ErrView>(e@),
        },
{
    match parse_u64(value) {
        None => Err(card_parse_error(ParseErrorKind::InvalidNumber, line)),
        Some(idx) => {
            match acc.cur.take() {
                Some(c) => {
                    acc.cards.push(c);
                },
                None => {},
            }
            proof {
                assert(card_views(acc.cards@) =~= old(acc)@.emitted + opt_card_seq(old(acc)@.cur));
            }
            let mut c = Card::default();
            c.index = idx;
            acc.cur = Some(c);
            proof {
                assert(acc@ =~= cards_index_step(old(acc)@, value@, line@)->Ok_0);
            }
            Ok(())
        },
    }
}

fn apply_name(acc: &mut CardsAcc, value: &str)
    ensures
        final(acc)@ == cards_name_step(old(acc)@, value@),
{
    match acc.cur.take() {
        Some(mut c) => {
            c.name = unquote_parsed_string_value(value);
            acc.cur = Some(c);
        },
        None => {},
    }
    proof {
        assert(acc@ =~= cards_name_step(old(acc)@, value@));
    }
}

fn apply_driver(acc: &mut CardsAcc, value: &str)
    ensures
        final(acc)@ == cards_driver_step(old(acc)@, value@),
{
    match acc.cur.take() {
        Some(mut c) => {
            c.driver = unquote_parsed_string_value(value);
            acc.cur = Some(c);
        },
        None => {},
    }
    proof {
        assert(acc@ =~= cards_driver_step(old(acc)@, value@));
    }
}

fn apply_description(acc: &mut CardsAcc, value: &str)
    ensures
        final(acc)@ == cards_description_step(old(acc)@, value@),
{
    match acc.cur.take() {
        Some(mut c) => {
            c.description = unquote_parsed_string_value(value);
            acc.cur = Some(c);
        },
        None => {},
    }
    proof {
        assert(acc@ =~= cards_description_step(old(acc)@, value@));
    }
}

fn apply_active_profile(acc: &mut CardsAcc, value: &str, line: &String) -> (r: Result<
    (),
    ParseError,
>)
    ensures
        match r {
            Ok(_) => cards_active_profile_step(old(acc)@, value@, line@) == Ok::<
                CardsState,
                ErrView,
            >(final(acc)@),
            Err(e) => cards_active_profile_step(old(acc)@, value@, line@) == Err::<
                CardsState,
                ErrView,
            >(e@),
        },
{
    acc.in_profiles = false;
    match acc.cur.take() {
        None => {
            proof {
                assert(acc@ =~= cards_active_profile_step(old(acc)@, value@, line@)->Ok_0);
            }
            Ok(())
        },
        Some(mut c) => {
            if c.bus == Bus::Bluetooth {
                let unq = unquote_parsed_string_value(value);
                match CardProfile::try_from_pa_str(unq.as_str()) {
                    None => {
                        return Err(card_parse_error(ParseErrorKind::UnknownToken, line));
                    },
                    Some(p) => {
                        c.active_profile = p;
                    },
                }
            }
            acc.cur = Some(c);
            proof {
                assert(acc@ =~= cards_active_profile_step(old(acc)@, value@, line@)->Ok_0);
            }
            Ok(())
        },
    }
}

fn apply_form_factor(acc: &mut CardsAcc, value: &str, line: &String) -> (r: Result<(), ParseError>)
    ensures
        match r {
            Ok(_) => cards_form_factor_step(old(acc)@, value@, line@) == Ok::<CardsState, ErrView>(
                final(acc)@,
            ),
            Err(e) => cards_form_factor_step(old(acc)@, value@, line@) == Err::<
                CardsState,
                ErrView,
            >(e@),
        },
{
    match acc.cur.take() {
        None => {
            proof {
                assert(acc@ =~= cards_form_factor_step(old(acc)@, value@, line@)->Ok_0);
            }
            Ok(())
        },
        Some(mut c) => {
            let unq = unquote_parsed_string_value(value);
            match FormFactor::try_from_pa_str(unq.as_str()) {
                None => {
                    acc.cur = Some(c);
                    Err(card_parse_error(ParseErrorKind::UnknownToken, line))
                },
                Some(f) => {
                    c.form_factor = f;
                    acc.cur = Some(c);
                    proof {
                        assert(acc@ =~= cards_form_factor_step(old(acc)@, value@, line@)->Ok_0);
                    }
                    Ok(())
                },
            }
        },
    }
}

fn apply_bus(acc: &mut CardsAcc, value: &str, line: &String) -> (r: Result<(), ParseError>)
    ensures
        match r {
            Ok(_) => cards_bus_step(old(acc)@, value@, line@) == Ok::<CardsState, ErrView>(
                final(acc)@,
            ),
            Err(e) => cards_bus_step(old(acc)@, value@, line@) == Err::<CardsState, ErrView>(e@),
        },
{
    match acc.cur.take() {
        None => {
            proof {
                assert(acc@ =~= cards_bus_step(old(acc)@, value@, line@)->Ok_0);
            }
            Ok(())
        },
        Some(mut c) => {
            let unq = unquote_parsed_string_value(value);
            match Bus::try_from_pa_str(unq.as_str()) {
                None => {
                    acc.cur = Some(c);
                    Err(card_parse_error(ParseErrorKind::UnknownToken, line))
                },
                Some(b) => {
                    c.bus = b;
                    acc.cur = Some(c);
                    proof {
                        assert(acc@ =~= cards_bus_step(old(acc)@, value@, line@)->Ok_0);
                    }
                    Ok(())
                },
            }
        },
    }
}

#[verifier::rlimit(60)]
fn apply_entry(acc: &mut CardsAcc, k: &str, line: &String) -> (r: Result<(), ParseError>)
    ensures
        match r {
            Ok(_) => cards_entry_step(old(acc)@, k@, line@) == Ok::<CardsState, ErrView>(
                final(acc)@,
            ),
            Err(e) => cards_entry_step(old(acc)@, k@, line@) == Err::<CardsState, ErrView>(e@),
        },
{
    match acc.cur.take() {
        None => {
            proof {
                assert(acc@ =~= cards_entry_step(old(acc)@, k@, line@)->Ok_0);
            }
            Ok(())
        },
        Some(mut c) => {
            if acc.in_profiles && c.bus == Bus::Bluetooth {
                match CardProfile::try_from_pa_str(k) {
                    None => {
                        return Err(card_parse_error(ParseErrorKind::UnknownToken, line));
                    },
                    Some(p) => {
                        c.profiles.push(p);
                    },
                }
            }
            if acc.in_sinks {
                match hash_suffix_exec(k) {
                    None => {
                        return Err(
                            card_parse_error(ParseErrorKind::MalformedEntityReference, line),
                        );
                    },
                    Some(id) => {
                        c.sink_ids.push(id);
                    },
                }
            } else if acc.in_sources {
                match hash_suffix_exec(k) {
                    None => {
                        return Err(
                            card_parse_error(ParseErrorKind::MalformedEntityReference, line),
                        );
                    },
                    Some(id) => {
                        c.source_ids.push(id);
                    },
                }
            }
            acc.cur = Some(c);
            proof {
                assert(acc@ =~= cards_entry_step(old(acc)@, k@, line@)->Ok_0);
            }
            Ok(())
        },
    }
}

/// Applies one line to the parser state, exactly as `cards_step` says.
#[verifier::rlimit(60)]
fn cards_step_exec(acc: &mut CardsAcc, line: &String) -> (r: Result<(), ParseError>)
    ensures
        match r {
            Ok(_) => cards_step(old(acc)@, line@) == Ok::<CardsState, ErrView>(final(acc)@),
            Err(e) => cards_step(old(acc)@, line@) == Err::<CardsState, ErrView>(e@),
        },
{
    let sl = match scan_line(line.as_str()) {
        None => {
            return Ok(());
        },
        Some(sl) => sl,
    };
    let key = sl.key.as_str();
    let value = sl.value.as_str();
    if str_eq(key, "index") {
        apply_index(acc, value, line)
    } else if str_eq(key, "name") {
        apply_name(acc, value);
        Ok(())
    } else if str_eq(key, "driver") {
        apply_driver(acc, value);
        Ok(())
    } else if str_eq(key, "device.description") {
        apply_description(acc, value);
        Ok(())
    } else if str_eq(key, "profiles") {
        acc.in_profiles = true;
        proof {
            assert(acc@ =~= CardsState { in_profiles: true, ..old(acc)@ });
        }
        Ok(())
    } else if str_eq(key, "active profile") {
        apply_active_profile(acc, value, line)
    } else if str_eq(key, "sinks") {
        acc.in_sinks = true;
        acc.in_sources = false;
        proof {
            assert(acc@ =~= CardsState { in_sinks: true, in_sources: false, ..old(acc)@ });
        }
        Ok(())
    } else if str_eq(key, "sources") {
        acc.in_sources = true;
        acc.in_sinks = false;
        proof {
            assert(acc@ =~= CardsState { in_sources: true, in_sinks: false, ..old(acc)@ });
        }
        Ok(())
    } else if str_eq(key, "ports") {
        acc.in_sources = false;
        proof {
            assert(acc@ =~= CardsState { in_sources: false, ..old(acc)@ });
        }
        Ok(())
    } else if str_eq(key, "device.form_factor") {
        apply_form_factor(acc, value, line)
    } else if str_eq(key, "device.bus") {
        apply_bus(acc, value, line)
    } else {
        apply_entry(acc, key, line)
    }
}

/// Parses card-listing text into one `Card` per `index` block, in input
/// order; fails on the first malformed list entry, non-numeric index, or
/// unknown closed-set token, and then yields no cards at all.
pub fn parse_cards(text: &str) -> (r: Result<Vec<Card>, ParseError>)
    ensures
        match r {
            Ok(cards) => cards_result(text@) == Ok::<Seq<CardView>, ErrView>(card_views(cards@)),
            Err(e) => cards_result(text@) == Err::<Seq<CardView>, ErrView>(e@),
        },
{
    let lines = split_trimmed_lines(text);
    let ghost lvs = split_lines(text@);
    let mut acc = CardsAcc {
        cards: Vec::new(),
        cur: None,
        in_profiles: false,
        in_sources: false,
        in_sinks: false,
    };
    let n = lines.len();
    proof {
        assert(lvs.take(0) =~= Seq::<Seq<char>>::empty());
        assert(acc@ =~= cards_init());
    }
    let mut i: usize = 0;
    while i < n
        invariant
            0 <= i <= n,
            n == lines@.len(),
            lvs == split_lines(text@),
            line_views(lines@) =~= lvs,
            cards_run(lvs.take(i as int)) == Ok::<CardsState, ErrView>(acc@),
        decreases n - i,
    {
        let ghost lv = lvs[i as int];
        proof {
            assert(lvs.take(i + 1).drop_last() =~= lvs.take(i as int));
            assert(lvs.take(i + 1).last() == lv);
            assert(lines@[i as int]@ == lv);
        }
        match cards_step_exec(&mut acc, &lines[i]) {
            Ok(_) => {},
            Err(e) => {
                proof {
                    lemma_cards_run_err(lvs, i + 1);
                }
                return Err(e);
            },
        }
        i = i + 1;
    }
    proof {
        assert(lvs.take(n as int) =~= lvs);
    }
    let ghost stf = acc@;
    let mut cards = acc.cards;
    match acc.cur {
        Some(c) => {
            cards.push(c);
        },
        None => {},
    }
    proof {
        assert(card_views(cards@) =~= stf.emitted + opt_card_seq(stf.cur));
    }
    Ok(cards)
}


/// The indices of the given cards, in order.
pub open spec fn card_indexes(s: Seq<CardView>) -> Seq<u64>
    decreases s.len(),
{
    if s.len() == 0 {
        Seq::empty()
    } else {
        card_indexes(s.drop_last()).push(s.last().index)
    }
}

pub open spec fn opt_index_seq(c: Option<CardView>) -> Seq<u64> {
    match c {
        None => Seq::empty(),
        Some(v) => seq![v.index],
    }
}

/// The values of the `index` lines of the input, in input order.
pub open spec fn index_values(lines: Seq<Seq<char>>) -> Seq<u64>
    decreases lines.len(),
{
    if lines.len() == 0 {
        Seq::empty()
    } else {
        index_values(lines.drop_last()) + match scan_spec(lines.last()) {
            Some(sc) => if sc.key == "index"@ {
                match parse_u64_spec(sc.value) {
                    Some(n) => seq![n],
                    None => Seq::empty(),
                }
            } else {
                Seq::empty()
            },
            None => Seq::empty(),
        }
    }
}

proof fn lemma_card_indexes_append(s: Seq<CardView>, c: Option<CardView>)
    ensures
        card_indexes(s + opt_card_seq(c)) == card_indexes(s) + opt_index_seq(c),
    decreases s.len(),
{
    match c {
        None => {
            assert(s + opt_card_seq(c) =~= s);
            assert(card_indexes(s) + opt_index_seq(c) =~= card_indexes(s));
        },
        Some(v) => {
            assert((s + opt_card_seq(c)).drop_last() =~= s);
            assert((s + opt_card_seq(c)).last() == v);
            assert(card_indexes(s).push(v.index) =~= card_indexes(s) + opt_index_seq(c));
        },
    }
}

/// Order law over a run: emitted cards, followed by the still-open one,
/// carry exactly the values of the input's `index` lines, in input order.
pub proof fn lemma_cards_order_run(lines: Seq<Seq<char>>)
    requires
        cards_run(lines) is Ok,
    ensures
        card_indexes(cards_run(lines)->Ok_0.emitted) + opt_index_seq(cards_run(lines)->Ok_0.cur)
            == index_values(lines),
    decreases lines.len(),
{
    if lines.len() == 0 {
        assert(card_indexes(Seq::empty()) + opt_index_seq(None::<CardView>)
            =~= Seq::<u64>::empty());
    } else {
        let prev = cards_run(lines.drop_last());
        assert(prev is Ok);
        lemma_cards_order_run(lines.drop_last());
        let st = prev->Ok_0;
        let stf = cards_run(lines)->Ok_0;
        let line = lines.last();
        match scan_spec(line) {
            None => {},
            Some(sc) => {
                if sc.key == "index"@ {
                    lemma_card_indexes_append(st.emitted, st.cur);
                    let n = parse_u64_spec(sc.value)->Some_0;
                    assert((card_indexes(st.emitted) + opt_index_seq(st.cur)) + seq![n]
                        =~= index_values(lines));
                    assert(card_indexes(stf.emitted) + opt_index_seq(stf.cur) =~= (card_indexes(
                        st.emitted,
                    ) + opt_index_seq(st.cur)) + seq![n]);
                }
            },
        }
    }
}

/// Order law: `parse_cards` emits cards in the order their `index` lines
/// appear, one card per `index` line, carrying that line's value.
pub proof fn lemma_cards_order(text: Seq<char>)
    requires
        cards_result(text) is Ok,
    ensures
        card_indexes(cards_result(text)->Ok_0) == index_values(split_lines(text)),
{
    lemma_cards_order_run(split_lines(text));
    let st = cards_run(split_lines(text))->Ok_0;
    lemma_card_indexes_append(st.emitted, st.cur);
}

/// Whether some line of the input is a list entry whose key carries the
/// `#<integer>` suffix `id`.
pub open spec fn id_from_entry(lines: Seq<Seq<char>>, id: u64) -> bool {
    exists|j: int|
        0 <= j < lines.len() && (match scan_spec(#[trigger] lines[j]) {
            Some(sc) => hash_suffix(sc.key) == Some(id),
            None => false,
        })
}

/// Whether every endpoint id of a card comes from a `#<integer>` entry of
/// the input.
pub open spec fn card_ids_ok(c: CardView, lines: Seq<Seq<char>>) -> bool {
    &&& forall|i: int| 0 <= i < c.sink_ids.len() ==> id_from_entry(lines, #[trigger] c.sink_ids[i])
    &&& forall|i: int|
        0 <= i < c.source_ids.len() ==> id_from_entry(lines, #[trigger] c.source_ids[i])
}

proof fn lemma_id_from_entry_mono(lines: Seq<Seq<char>>, id: u64)
    requires
        lines.len() > 0,
        id_from_entry(lines.drop_last(), id),
    ensures
        id_from_entry(lines, id),
{
    let j = choose|j: int|
        0 <= j < lines.drop_last().len() && (match scan_spec(#[trigger] lines.drop_last()[j]) {
            Some(sc) => hash_suffix(sc.key) == Some(id),
            None => false,
        });
    assert(lines.drop_last()[j] == lines[j]);
}

proof fn lemma_card_ids_ok_mono(c: CardView, lines: Seq<Seq<char>>)
    requires
        lines.len() > 0,
        card_ids_ok(c, lines.drop_last()),
    ensures
        card_ids_ok(c, lines),
{
    assert forall|i: int| 0 <= i < c.sink_ids.len() implies id_from_entry(
        lines,
        #[trigger] c.sink_ids[i],
    ) by {
        lemma_id_from_entry_mono(lines, c.sink_ids[i]);
    }
    assert forall|i: int| 0 <= i < c.source_ids.len() implies id_from_entry(
        lines,
        #[trigger] c.source_ids[i],
    ) by {
        lemma_id_from_entry_mono(lines, c.source_ids[i]);
    }
}

/// Reference law over a run: every id in every card's `sink_ids` or
/// `source_ids` is the numeric `#<integer>` suffix of some list entry of
/// the input.
pub proof fn lemma_card_ids_run(lines: Seq<Seq<char>>)
    requires
        cards_run(lines) is Ok,
    ensures
        forall|ci: int|
            0 <= ci < cards_run(lines)->Ok_0.emitted.len() ==> card_ids_ok(
                #[trigger] cards_run(lines)->Ok_0.emitted[ci],
                lines,
            ),
        cards_run(lines)->Ok_0.cur matches Some(c) ==> card_ids_ok(c, lines),
    decreases lines.len(),
{
    if lines.len() == 0 {
    } else {
        let prev = cards_run(lines.drop_last());
        assert(prev is Ok);
        lemma_card_ids_run(lines.drop_last());
        let st = prev->Ok_0;
        let stf = cards_run(lines)->Ok_0;
        let line = lines.last();
        assert forall|ci: int| 0 <= ci < st.emitted.len() implies card_ids_ok(
            #[trigger] st.emitted[ci],
            lines,
        ) by {
            lemma_card_ids_ok_mono(st.emitted[ci], lines);
        }
        if st.cur is Some {
            lemma_card_ids_ok_mono(st.cur->Some_0, lines);
        }
        match scan_spec(line) {
            None => {},
            Some(sc) => {
                let k = sc.key;
                if k == "index"@ {
                    assert forall|ci: int| 0 <= ci < stf.emitted.len() implies card_ids_ok(
                        #[trigger] stf.emitted[ci],
                        lines,
                    ) by {
                        if ci < st.emitted.len() {
                        } else {
                            assert(stf.emitted[ci] == st.cur->Some_0);
                        }
                    }
                } else {
                    if stf.cur is Some && st.cur is Some {
                        let c0 = st.cur->Some_0;
                        let c1 = stf.cur->Some_0;
                        assert forall|i: int| 0 <= i < c1.sink_ids.len() implies id_from_entry(
                            lines,
                            #[trigger] c1.sink_ids[i],
                        ) by {
                            if i < c0.sink_ids.len() && c1.sink_ids[i] == c0.sink_ids[i] {
                            } else {
                                assert(lines[lines.len() - 1] == line);
                            }
                        }
                        assert forall|i: int| 0 <= i < c1.source_ids.len() implies id_from_entry(
                            lines,
                            #[trigger] c1.source_ids[i],
                        ) by {
                            if i < c0.source_ids.len() && c1.source_ids[i] == c0.source_ids[i] {
                            } else {
                                assert(lines[lines.len() - 1] == line);
                            }
                        }
                    }
                }
            },
        }
    }
}

/// Reference law: every id in every parsed card's `sink_ids` or
/// `source_ids` is the numeric `#<integer>` suffix of some list entry of
/// the input.
pub proof fn lemma_card_ids(text: Seq<char>)
    requires
        cards_result(text) is Ok,
    ensures
        forall|ci: int|
            0 <= ci < cards_result(text)->Ok_0.len() ==> card_ids_ok(
                #[trigger] cards_result(text)->Ok_0[ci],
                split_lines(text),
            ),
{
    let lines = split_lines(text);
    lemma_card_ids_run(lines);
    let st = cards_run(lines)->Ok_0;
    assert forall|ci: int| 0 <= ci < cards_result(text)->Ok_0.len() implies card_ids_ok(
        #[trigger] cards_result(text)->Ok_0[ci],
        lines,
    ) by {
        if ci < st.emitted.len() {
            assert(cards_result(text)->Ok_0[ci] == st.emitted[ci]);
        } else {
            assert(cards_result(text)->Ok_0[ci] == st.cur->Some_0);
        }
    }
}

} // verus!
