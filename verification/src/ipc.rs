//! The control-channel protocol: request and response types, their wire
//! encoding, and the framing of payloads behind a 4-byte big-endian length
//! prefix. A payload is a tagged line of text: the variant's name, then its
//! fields, space-separated; strings are quoted and escaped, numbers are
//! decimal, booleans are `true`/`false`, an absent number is `null`.
//!
//! Encoding and decoding are specified by `ser_msg`/`spec_parse_msg` and
//! `ser_resp`/`spec_parse_resp`; the round-trip lemmas prove that decoding
//! an encoded value returns exactly that value, from which re-encoding
//! byte-identically follows.

use vstd::prelude::*;
use vstd::string::StringSliceAdditionalSpecFns;
use vstd::utf8::{valid_utf8, decode_utf8, encode_utf8, encode_utf8_valid_utf8,
    encode_utf8_decode_utf8};
use crate::error::Error;
use crate::wire::{SPACE, QUOTE, MAX_PAYLOAD, escape_bytes, ser_quoted, ser_num, ser_bool,
    ser_opt_num, take_word, lemma_take_word, parse_sp_string, parse_sp_num,
    parse_sp_bool, parse_sp_opt_num, lemma_sp_quoted_round_trip, lemma_sp_num_round_trip,
    lemma_sp_bool_round_trip, lemma_sp_opt_num_round_trip, is_digit,
    push_bytes, push_escaped, push_num, push_bool, push_opt_num, parse_field_string,
    parse_field_num, parse_field_bool, parse_field_opt_num, scan_word, range_eq, be32_val,
    encode_frame_len, decode_frame_len};

verus! {

/// Well-known path of the daemon's listening socket.
pub const DEFAULT_SOCKET_PATH: &'static str = "/tmp/kbd-backlight-daemon.sock";

/// A request from the command-line client to the daemon.
#[derive(Debug, Clone)]
pub enum IpcMessage {
    GetStatus,
    SetProfile(String),
    SetManualBrightness(u32),
    ClearManualOverride,
    ListProfiles,
    AddTimeSchedule { profile: String, hour: u8, minute: u8, brightness: u32 },
    Shutdown,
}

/// The daemon's status, as reported to the client.
#[derive(Debug, Clone)]
pub struct StatusInfo {
    pub active_profile: String,
    pub current_brightness: u32,
    pub is_idle: bool,
    pub is_fullscreen: bool,
    pub manual_override: Option<u32>,
}

/// The daemon's answer to one request.
#[derive(Debug, Clone)]
pub enum IpcResponse {
    Status(StatusInfo),
    ProfileChanged,
    BrightnessSet,
    ProfileList(Vec<String>),
    ScheduleAdded,
    Error(String),
    Okay,
}

/// The mathematical model of a request: strings as character sequences.
pub enum MsgView {
    GetStatus,
    SetProfile(Seq<char>),
    SetManualBrightness(u32),
    ClearManualOverride,
    ListProfiles,
    AddTimeSchedule { profile: Seq<char>, hour: u8, minute: u8, brightness: u32 },
    Shutdown,
}

/// The mathematical model of the reported status.
pub struct StatusView {
    pub active_profile: Seq<char>,
    pub current_brightness: u32,
    pub is_idle: bool,
    pub is_fullscreen: bool,
    pub manual_override: Option<u32>,
}

/// The mathematical model of a response.
pub enum RespView {
    Status(StatusView),
    ProfileChanged,
    BrightnessSet,
    ProfileList(Seq<Seq<char>>),
    ScheduleAdded,
    Error(Seq<char>),
    Okay,
}

impl View for IpcMessage {
    type V = MsgView;

    open spec fn view(&self) -> MsgView {
        match self {
            IpcMessage::GetStatus => MsgView::GetStatus,
            IpcMessage::SetProfile(s) => MsgView::SetProfile(s@),
            IpcMessage::SetManualBrightness(v) => MsgView::SetManualBrightness(*v),
            IpcMessage::ClearManualOverride => MsgView::ClearManualOverride,
            IpcMessage::ListProfiles => MsgView::ListProfiles,
            IpcMessage::AddTimeSchedule { profile, hour, minute, brightness } => {
                MsgView::AddTimeSchedule {
                    profile: profile@,
                    hour: *hour,
                    minute: *minute,
                    brightness: *brightness,
                }
            },
            IpcMessage::Shutdown => MsgView::Shutdown,
        }
    }
}

impl View for StatusInfo {
    type V = StatusView;

    open spec fn view(&self) -> StatusView {
        StatusView {
            active_profile: self.active_profile@,
            current_brightness: self.current_brightness,
            is_idle: self.is_idle,
            is_fullscreen: self.is_fullscreen,
            manual_override: self.manual_override,
        }
    }
}

impl View for IpcResponse {
    type V = RespView;

    open spec fn view(&self) -> RespView {
        match self {
            IpcResponse::Status(info) => RespView::Status(info@),
            IpcResponse::ProfileChanged => RespView::ProfileChanged,
            IpcResponse::BrightnessSet => RespView::BrightnessSet,
            IpcResponse::ProfileList(l) => RespView::ProfileList(
                l@.map_values(|s: String| s@),
            ),
            IpcResponse::ScheduleAdded => RespView::ScheduleAdded,
            IpcResponse::Error(s) => RespView::Error(s@),
            IpcResponse::Okay => RespView::Okay,
        }
    }
}

pub open spec fn tag_get_status() -> Seq<u8> {
    seq!['G' as u8, 'e' as u8, 't' as u8, 'S' as u8, 't' as u8, 'a' as u8, 't' as u8, 'u' as u8,
        's' as u8]
}

pub open spec fn tag_set_profile() -> Seq<u8> {
    seq!['S' as u8, 'e' as u8, 't' as u8, 'P' as u8, 'r' as u8, 'o' as u8, 'f' as u8, 'i' as u8,
        'l' as u8, 'e' as u8]
}

pub open spec fn tag_set_manual_brightness() -> Seq<u8> {
    seq!['S' as u8, 'e' as u8, 't' as u8, 'M' as u8, 'a' as u8, 'n' as u8, 'u' as u8, 'a' as u8,
        'l' as u8, 'B' as u8, 'r' as u8, 'i' as u8, 'g' as u8, 'h' as u8, 't' as u8, 'n' as u8,
        'e' as u8, 's' as u8, 's' as u8]
}

pub open spec fn tag_clear_manual_override() -> Seq<u8> {
    seq!['C' as u8, 'l' as u8, 'e' as u8, 'a' as u8, 'r' as u8, 'M' as u8, 'a' as u8, 'n' as u8,
        'u' as u8, 'a' as u8, 'l' as u8, 'O' as u8, 'v' as u8, 'e' as u8, 'r' as u8, 'r' as u8,
        'i' as u8, 'd' as u8, 'e' as u8]
}

pub open spec fn tag_list_profiles() -> Seq<u8> {
    seq!['L' as u8, 'i' as u8, 's' as u8, 't' as u8, 'P' as u8, 'r' as u8, 'o' as u8, 'f' as u8,
        'i' as u8, 'l' as u8, 'e' as u8, 's' as u8]
}

pub open spec fn tag_add_time_schedule() -> Seq<u8> {
    seq!['A' as u8, 'd' as u8, 'd' as u8, 'T' as u8, 'i' as u8, 'm' as u8, 'e' as u8, 'S' as u8,
        'c' as u8, 'h' as u8, 'e' as u8, 'd' as u8, 'u' as u8, 'l' as u8, 'e' as u8]
}

pub open spec fn tag_shutdown() -> Seq<u8> {
    seq!['S' as u8, 'h' as u8, 'u' as u8, 't' as u8, 'd' as u8, 'o' as u8, 'w' as u8, 'n' as u8]
}

pub open spec fn tag_status() -> Seq<u8> {
    seq!['S' as u8, 't' as u8, 'a' as u8, 't' as u8, 'u' as u8, 's' as u8]
}

pub open spec fn tag_profile_changed() -> Seq<u8> {
    seq!['P' as u8, 'r' as u8, 'o' as u8, 'f' as u8, 'i' as u8, 'l' as u8, 'e' as u8, 'C' as u8,
        'h' as u8, 'a' as u8, 'n' as u8, 'g' as u8, 'e' as u8, 'd' as u8]
}

pub open spec fn tag_brightness_set() -> Seq<u8> {
    seq!['B' as u8, 'r' as u8, 'i' as u8, 'g' as u8, 'h' as u8, 't' as u8, 'n' as u8, 'e' as u8,
        's' as u8, 's' as u8, 'S' as u8, 'e' as u8, 't' as u8]
}

pub open spec fn tag_profile_list() -> Seq<u8> {
    seq!['P' as u8, 'r' as u8, 'o' as u8, 'f' as u8, 'i' as u8, 'l' as u8, 'e' as u8, 'L' as u8,
        'i' as u8, 's' as u8, 't' as u8]
}

pub open spec fn tag_schedule_added() -> Seq<u8> {
    seq!['S' as u8, 'c' as u8, 'h' as u8, 'e' as u8, 'd' as u8, 'u' as u8, 'l' as u8, 'e' as u8,
        'A' as u8, 'd' as u8, 'd' as u8, 'e' as u8, 'd' as u8]
}

pub open spec fn tag_error() -> Seq<u8> {
    seq!['E' as u8, 'r' as u8, 'r' as u8, 'o' as u8, 'r' as u8]
}

pub open spec fn tag_ok() -> Seq<u8> {
    seq!['O' as u8, 'k' as u8]
}

/// The encoding of a string field body: its UTF-8 bytes, escaped, quoted.
pub open spec fn ser_string(s: Seq<char>) -> Seq<u8> {
    ser_quoted(encode_utf8(s))
}

/// The encoding of a request.
pub open spec fn ser_msg(v: MsgView) -> Seq<u8> {
    match v {
        MsgView::GetStatus => tag_get_status(),
        MsgView::SetProfile(s) => tag_set_profile() + seq![SPACE] + ser_string(s),
        MsgView::SetManualBrightness(n) => tag_set_manual_brightness() + seq![SPACE] + ser_num(
            n as int,
        ),
        MsgView::ClearManualOverride => tag_clear_manual_override(),
        MsgView::ListProfiles => tag_list_profiles(),
        MsgView::AddTimeSchedule { profile, hour, minute, brightness } => {
            tag_add_time_schedule() + seq![SPACE] + ser_string(profile) + seq![SPACE] + ser_num(
                hour as int,
            ) + seq![SPACE] + ser_num(minute as int) + seq![SPACE] + ser_num(brightness as int)
        },
        MsgView::Shutdown => tag_shutdown(),
    }
}

/// The characters of a field's unescaped bytes, when they are valid UTF-8.
pub open spec fn str_of_bytes(u: Seq<u8>) -> Option<Seq<char>> {
    if valid_utf8(u) {
        Some(decode_utf8(u))
    } else {
        None
    }
}

/// Decode a request: the tag word dispatches, the fields follow, and the
/// input must be consumed exactly.
pub open spec fn spec_parse_msg(b: Seq<u8>) -> Option<MsgView> {
    let w = take_word(b);
    let rest = b.skip(w.len() as int);
    if w == tag_get_status() {
        if rest.len() == 0 {
            Some(MsgView::GetStatus)
        } else {
            None
        }
    } else if w == tag_set_profile() {
        match parse_sp_string(rest) {
            Option::Some(p) => {
                if p.1.len() == 0 {
                    match str_of_bytes(p.0) {
                        Option::Some(s) => Some(MsgView::SetProfile(s)),
                        Option::None => None,
                    }
                } else {
                    None
                }
            },
            Option::None => None,
        }
    } else if w == tag_set_manual_brightness() {
        match parse_sp_num(rest) {
            Option::Some(p) => {
                if p.1.len() == 0 && p.0 <= u32::MAX {
                    Some(MsgView::SetManualBrightness(p.0 as u32))
                } else {
                    None
                }
            },
            Option::None => None,
        }
    } else if w == tag_clear_manual_override() {
        if rest.len() == 0 {
            Some(MsgView::ClearManualOverride)
        } else {
            None
        }
    } else if w == tag_list_profiles() {
        if rest.len() == 0 {
            Some(MsgView::ListProfiles)
        } else {
            None
        }
    } else if w == tag_add_time_schedule() {
        match parse_sp_string(rest) {
            Option::Some(p1) => match str_of_bytes(p1.0) {
                Option::Some(prof) => match parse_sp_num(p1.1) {
                    Option::Some(p2) => {
                        if p2.0 <= 255 {
                            match parse_sp_num(p2.1) {
                                Option::Some(p3) => {
                                    if p3.0 <= 255 {
                                        match parse_sp_num(p3.1) {
                                            Option::Some(p4) => {
                                                if p4.0 <= u32::MAX && p4.1.len() == 0 {
                                                    Some(MsgView::AddTimeSchedule {
                                                        profile: prof,
                                                        hour: p2.0 as u8,
                                                        minute: p3.0 as u8,
                                                        brightness: p4.0 as u32,
                                                    })
                                                } else {
                                                    None
                                                }
                                            },
                                            Option::None => None,
                                        }
                                    } else {
                                        None
                                    }
                                },
                                Option::None => None,
                            }
                        } else {
                            None
                        }
                    },
                    Option::None => None,
                },
                Option::None => None,
            },
            Option::None => None,
        }
    } else if w == tag_shutdown() {
        if rest.len() == 0 {
            Some(MsgView::Shutdown)
        } else {
            None
        }
    } else {
        None
    }
}

/// No request tag contains a space.
pub proof fn lemma_msg_tags_wordlike()
    ensures
        forall|i: int| 0 <= i < tag_get_status().len() ==> #[trigger] tag_get_status()[i] != SPACE,
        forall|i: int| 0 <= i < tag_set_profile().len() ==> #[trigger] tag_set_profile()[i]
            != SPACE,
        forall|i: int|
            0 <= i < tag_set_manual_brightness().len()
                ==> #[trigger] tag_set_manual_brightness()[i] != SPACE,
        forall|i: int|
            0 <= i < tag_clear_manual_override().len()
                ==> #[trigger] tag_clear_manual_override()[i] != SPACE,
        forall|i: int| 0 <= i < tag_list_profiles().len() ==> #[trigger] tag_list_profiles()[i]
            != SPACE,
        forall|i: int|
            0 <= i < tag_add_time_schedule().len() ==> #[trigger] tag_add_time_schedule()[i]
                != SPACE,
        forall|i: int| 0 <= i < tag_shutdown().len() ==> #[trigger] tag_shutdown()[i] != SPACE,
{
}

/// Decoding an encoded request returns exactly that request.
pub proof fn lemma_msg_round_trip(v: MsgView)
    ensures
        spec_parse_msg(ser_msg(v)) == Some(v),
{
    lemma_msg_tags_wordlike();
    let b = ser_msg(v);
    match v {
        MsgView::GetStatus => {
            lemma_take_word(tag_get_status(), Seq::empty());
            assert(b =~= tag_get_status() + Seq::<u8>::empty());
        },
        MsgView::SetProfile(s) => {
            let rest = seq![SPACE] + ser_string(s);
            lemma_take_word(tag_set_profile(), rest);
            assert(b =~= tag_set_profile() + rest);
            lemma_sp_quoted_round_trip(encode_utf8(s), Seq::empty());
            assert(seq![SPACE] + ser_quoted(encode_utf8(s)) + Seq::<u8>::empty() =~= rest);
            encode_utf8_valid_utf8(s);
            encode_utf8_decode_utf8(s);
        },
        MsgView::SetManualBrightness(n) => {
            let rest = seq![SPACE] + ser_num(n as int);
            lemma_take_word(tag_set_manual_brightness(), rest);
            assert(b =~= tag_set_manual_brightness() + rest);
            lemma_sp_num_round_trip(n as u64, Seq::empty());
            assert(seq![SPACE] + ser_num(n as u64 as int) + Seq::<u8>::empty() =~= rest);
        },
        MsgView::ClearManualOverride => {
            lemma_take_word(tag_clear_manual_override(), Seq::empty());
            assert(b =~= tag_clear_manual_override() + Seq::<u8>::empty());
        },
        MsgView::ListProfiles => {
            lemma_take_word(tag_list_profiles(), Seq::empty());
            assert(b =~= tag_list_profiles() + Seq::<u8>::empty());
        },
        MsgView::AddTimeSchedule { profile, hour, minute, brightness } => {
            let f4 = seq![SPACE] + ser_num(brightness as int);
            let f3 = seq![SPACE] + ser_num(minute as int) + f4;
            let f2 = seq![SPACE] + ser_num(hour as int) + f3;
            let f1 = seq![SPACE] + ser_string(profile) + f2;
            lemma_take_word(tag_add_time_schedule(), f1);
            assert(b =~= tag_add_time_schedule() + f1);
            lemma_sp_quoted_round_trip(encode_utf8(profile), f2);
            assert(seq![SPACE] + ser_quoted(encode_utf8(profile)) + f2 =~= f1);
            encode_utf8_valid_utf8(profile);
            encode_utf8_decode_utf8(profile);
            lemma_sp_num_round_trip(hour as u64, f3);
            assert(seq![SPACE] + ser_num(hour as u64 as int) + f3 =~= f2);
            lemma_sp_num_round_trip(minute as u64, f4);
            assert(seq![SPACE] + ser_num(minute as u64 as int) + f4 =~= f3);
            lemma_sp_num_round_trip(brightness as u64, Seq::empty());
            assert(seq![SPACE] + ser_num(brightness as u64 as int) + Seq::<u8>::empty() =~= f4);
        },
        MsgView::Shutdown => {
            lemma_take_word(tag_shutdown(), Seq::empty());
            assert(b =~= tag_shutdown() + Seq::<u8>::empty());
        },
    }
}

/// Relies on String::from_utf8: it succeeds exactly on valid UTF-8 input
/// and returns the string of those bytes' characters.
#[verifier::external_body]
fn bytes_to_string(v: Vec<u8>) -> (r: Option<String>)
    ensures
        match r {
            Some(s) => valid_utf8(v@) && s@ == decode_utf8(v@),
            None => !valid_utf8(v@),
        },
{
    match String::from_utf8(v) {
        Ok(s) => Some(s),
        Err(_) => None,
    }
}

fn tag_vec_get_status() -> (r: Vec<u8>)
    ensures
        r@ == tag_get_status(),
{
    let mut v: Vec<u8> = Vec::new();
    v.push('G' as u8);
    v.push('e' as u8);
    v.push('t' as u8);
    v.push('S' as u8);
    v.push('t' as u8);
    v.push('a' as u8);
    v.push('t' as u8);
    v.push('u' as u8);
    v.push('s' as u8);
    proof {
        assert(v@ =~= tag_get_status());
    }
    v
}

fn tag_vec_set_profile() -> (r: Vec<u8>)
    ensures
        r@ == tag_set_profile(),
{
    let mut v: Vec<u8> = Vec::new();
    v.push('S' as u8);
    v.push('e' as u8);
    v.push('t' as u8);
    v.push('P' as u8);
    v.push('r' as u8);
    v.push('o' as u8);
    v.push('f' as u8);
    v.push('i' as u8);
    v.push('l' as u8);
    v.push('e' as u8);
    proof {
        assert(v@ =~= tag_set_profile());
    }
    v
}

fn tag_vec_set_manual_brightness() -> (r: Vec<u8>)
    ensures
        r@ == tag_set_manual_brightness(),
{
    let mut v: Vec<u8> = Vec::new();
    v.push('S' as u8);
    v.push('e' as u8);
    v.push('t' as u8);
    v.push('M' as u8);
    v.push('a' as u8);
    v.push('n' as u8);
    v.push('u' as u8);
    v.push('a' as u8);
    v.push('l' as u8);
    v.push('B' as u8);
    v.push('r' as u8);
    v.push('i' as u8);
    v.push('g' as u8);
    v.push('h' as u8);
    v.push('t' as u8);
    v.push('n' as u8);
    v.push('e' as u8);
    v.push('s' as u8);
    v.push('s' as u8);
    proof {
        assert(v@ =~= tag_set_manual_brightness());
    }
    v
}

fn tag_vec_clear_manual_override() -> (r: Vec<u8>)
    ensures
        r@ == tag_clear_manual_override(),
{
    let mut v: Vec<u8> = Vec::new();
    v.push('C' as u8);
    v.push('l' as u8);
    v.push('e' as u8);
    v.push('a' as u8);
    v.push('r' as u8);
    v.push('M' as u8);
    v.push('a' as u8);
    v.push('n' as u8);
    v.push('u' as u8);
    v.push('a' as u8);
    v.push('l' as u8);
    v.push('O' as u8);
    v.push('v' as u8);
    v.push('e' as u8);
    v.push('r' as u8);
    v.push('r' as u8);
    v.push('i' as u8);
    v.push('d' as u8);
    v.push('e' as u8);
    proof {
        assert(v@ =~= tag_clear_manual_override());
    }
    v
}

fn tag_vec_list_profiles() -> (r: Vec<u8>)
    ensures
        r@ == tag_list_profiles(),
{
    let mut v: Vec<u8> = Vec::new();
    v.push('L' as u8);
    v.push('i' as u8);
    v.push('s' as u8);
    v.push('t' as u8);
    v.push('P' as u8);
    v.push('r' as u8);
    v.push('o' as u8);
    v.push('f' as u8);
    v.push('i' as u8);
    v.push('l' as u8);
    v.push('e' as u8);
    v.push('s' as u8);
    proof {
        assert(v@ =~= tag_list_profiles());
    }
    v
}

fn tag_vec_add_time_schedule() -> (r: Vec<u8>)
    ensures
        r@ == tag_add_time_schedule(),
{
    let mut v: Vec<u8> = Vec::new();
    v.push('A' as u8);
    v.push('d' as u8);
    v.push('d' as u8);
    v.push('T' as u8);
    v.push('i' as u8);
    v.push('m' as u8);
    v.push('e' as u8);
    v.push('S' as u8);
    v.push('c' as u8);
    v.push('h' as u8);
    v.push('e' as u8);
    v.push('d' as u8);
    v.push('u' as u8);
    v.push('l' as u8);
    v.push('e' as u8);
    proof {
        assert(v@ =~= tag_add_time_schedule());
    }
    v
}

fn tag_vec_shutdown() -> (r: Vec<u8>)
    ensures
        r@ == tag_shutdown(),
{
    let mut v: Vec<u8> = Vec::new();
    v.push('S' as u8);
    v.push('h' as u8);
    v.push('u' as u8);
    v.push('t' as u8);
    v.push('d' as u8);
    v.push('o' as u8);
    v.push('w' as u8);
    v.push('n' as u8);
    proof {
        assert(v@ =~= tag_shutdown());
    }
    v
}

/// Append a quoted, escaped string field (with its leading space).
fn push_string_field(out: &mut Vec<u8>, s: &str)
    ensures
        final(out)@ == old(out)@ + seq![SPACE] + ser_string(s@),
{
    out.push(SPACE);
    out.push(QUOTE);
    push_escaped(out, s.as_bytes());
    out.push(QUOTE);
    proof {
        assert(out@ =~= old(out)@ + seq![SPACE] + (seq![QUOTE] + escape_bytes(encode_utf8(s@))
            + seq![QUOTE]));
    }
}

impl IpcMessage {
    /// Encode this request as its wire payload. Never fails; the `Result`
    /// mirrors the channel API.
    pub fn serialize(&self) -> (r: Result<Vec<u8>, Error>)
        ensures
            r matches Ok(v) && v@ == ser_msg(self@),
    {
        let mut out: Vec<u8>;
        match self {
            IpcMessage::GetStatus => {
                out = tag_vec_get_status();
            },
            IpcMessage::SetProfile(s) => {
                out = tag_vec_set_profile();
                push_string_field(&mut out, s.as_str());
                proof {
                    assert(out@ =~= ser_msg(self@));
                }
            },
            IpcMessage::SetManualBrightness(n) => {
                out = tag_vec_set_manual_brightness();
                out.push(SPACE);
                push_num(&mut out, *n as u64);
                proof {
                    assert(out@ =~= ser_msg(self@));
                }
            },
            IpcMessage::ClearManualOverride => {
                out = tag_vec_clear_manual_override();
            },
            IpcMessage::ListProfiles => {
                out = tag_vec_list_profiles();
            },
            IpcMessage::AddTimeSchedule { profile, hour, minute, brightness } => {
                out = tag_vec_add_time_schedule();
                push_string_field(&mut out, profile.as_str());
                out.push(SPACE);
                push_num(&mut out, *hour as u64);
                out.push(SPACE);
                push_num(&mut out, *minute as u64);
                out.push(SPACE);
                push_num(&mut out, *brightness as u64);
                proof {
                    assert(out@ =~= ser_msg(self@));
                }
            },
            IpcMessage::Shutdown => {
                out = tag_vec_shutdown();
            },
        }
        Ok(out)
    }

    /// Decode a request from its wire payload.
    pub fn deserialize(data: &[u8]) -> (r: Result<IpcMessage, Error>)
        ensures
            match spec_parse_msg(data@) {
                Option::Some(v) => r matches Ok(m) && m@ == v,
                Option::None => r matches Err(e) && e matches Error::IpcProtocol(_),
            },
    {
        let end = scan_word(data, 0);
        let ghost w = take_word(data@);
        let ghost rest = data@.skip(w.len() as int);
        proof {
            assert(data@.skip(0) =~= data@);
            assert(w == data@.subrange(0, end as int));
            assert(rest =~= data@.skip(end as int));
        }
        let n = data.len();
        if range_eq(data, 0, end, tag_vec_get_status().as_slice()) {
            if end == n {
                proof {
                    assert(rest.len() == 0);
                }
                return Ok(IpcMessage::GetStatus);
            }
            return Err(Error::ipc_protocol("unexpected bytes after GetStatus".to_owned()));
        }
        if range_eq(data, 0, end, tag_vec_set_profile().as_slice()) {
            match parse_field_string(data, end) {
                Some(p) => {
                    if p.1 == n {
                        match bytes_to_string(p.0) {
                            Some(s) => {
                                return Ok(IpcMessage::SetProfile(s));
                            },
                            None => {
                                return Err(Error::ipc_protocol(
                                    "invalid text in SetProfile".to_owned(),
                                ));
                            },
                        }
                    }
                    return Err(Error::ipc_protocol(
                        "unexpected bytes after SetProfile".to_owned(),
                    ));
                },
                None => {
                    return Err(Error::ipc_protocol("malformed SetProfile".to_owned()));
                },
            }
        }
        if range_eq(data, 0, end, tag_vec_set_manual_brightness().as_slice()) {
            match parse_field_num(data, end) {
                Some(p) => {
                    if p.1 == n && p.0 <= u32::MAX as u64 {
                        return Ok(IpcMessage::SetManualBrightness(p.0 as u32));
                    }
                    return Err(Error::ipc_protocol(
                        "malformed SetManualBrightness".to_owned(),
                    ));
                },
                None => {
                    return Err(Error::ipc_protocol(
                        "malformed SetManualBrightness".to_owned(),
                    ));
                },
            }
        }
        if range_eq(data, 0, end, tag_vec_clear_manual_override().as_slice()) {
            if end == n {
                return Ok(IpcMessage::ClearManualOverride);
            }
            return Err(Error::ipc_protocol(
                "unexpected bytes after ClearManualOverride".to_owned(),
            ));
        }
        if range_eq(data, 0, end, tag_vec_list_profiles().as_slice()) {
            if end == n {
                return Ok(IpcMessage::ListProfiles);
            }
            return Err(Error::ipc_protocol("unexpected bytes after ListProfiles".to_owned()));
        }
        if range_eq(data, 0, end, tag_vec_add_time_schedule().as_slice()) {
            match parse_field_string(data, end) {
                Some(p1) => {
                    let prof = match bytes_to_string(p1.0) {
                        Some(s) => s,
                        None => {
                            return Err(Error::ipc_protocol(
                                "invalid text in AddTimeSchedule".to_owned(),
                            ));
                        },
                    };
                    match parse_field_num(data, p1.1) {
                        Some(p2) => {
                            if p2.0 > 255 {
                                return Err(Error::ipc_protocol(
                                    "malformed AddTimeSchedule".to_owned(),
                                ));
                            }
                            match parse_field_num(data, p2.1) {
                                Some(p3) => {
                                    if p3.0 > 255 {
                                        return Err(Error::ipc_protocol(
                                            "malformed AddTimeSchedule".to_owned(),
                                        ));
                                    }
                                    match parse_field_num(data, p3.1) {
                                        Some(p4) => {
                                            if p4.0 <= u32::MAX as u64 && p4.1 == n {
                                                return Ok(IpcMessage::AddTimeSchedule {
                                                    profile: prof,
                                                    hour: p2.0 as u8,
                                                    minute: p3.0 as u8,
                                                    brightness: p4.0 as u32,
                                                });
                                            }
                                            return Err(Error::ipc_protocol(
                                                "malformed AddTimeSchedule".to_owned(),
                                            ));
                                        },
                                        None => {
                                            return Err(Error::ipc_protocol(
                                                "malformed AddTimeSchedule".to_owned(),
                                            ));
                                        },
                                    }
                                },
                                None => {
                                    return Err(Error::ipc_protocol(
                                        "malformed AddTimeSchedule".to_owned(),
                                    ));
                                },
                            }
                        },
                        None => {
                            return Err(Error::ipc_protocol(
                                "malformed AddTimeSchedule".to_owned(),
                            ));
                        },
                    }
                },
                None => {
                    return Err(Error::ipc_protocol("malformed AddTimeSchedule".to_owned()));
                },
            }
        }
        if range_eq(data, 0, end, tag_vec_shutdown().as_slice()) {
            if end == n {
                return Ok(IpcMessage::Shutdown);
            }
            return Err(Error::ipc_protocol("unexpected bytes after Shutdown".to_owned()));
        }
        Err(Error::ipc_protocol("unknown request".to_owned()))
    }
}

/// An optional `u32` widened for the wire encoding.
pub open spec fn opt_u64(v: Option<u32>) -> Option<u64> {
    match v {
        Option::Some(n) => Some(n as u64),
        Option::None => None,
    }
}

/// The encoding of the status fields, in declaration order.
pub open spec fn ser_status_fields(s: StatusView) -> Seq<u8> {
    seq![SPACE] + ser_string(s.active_profile) + seq![SPACE] + ser_num(s.current_brightness as int)
        + seq![SPACE] + ser_bool(s.is_idle) + seq![SPACE] + ser_bool(s.is_fullscreen) + seq![SPACE]
        + ser_opt_num(opt_u64(s.manual_override))
}

/// The encoding of the items of a profile-name list, from index `i` on.
pub open spec fn ser_string_list_from(l: Seq<Seq<char>>, i: int) -> Seq<u8>
    decreases l.len() - i,
{
    if i < 0 || i >= l.len() {
        Seq::empty()
    } else {
        seq![SPACE] + ser_string(l[i]) + ser_string_list_from(l, i + 1)
    }
}

/// The encoding of a response.
pub open spec fn ser_resp(v: RespView) -> Seq<u8> {
    match v {
        RespView::Status(s) => tag_status() + ser_status_fields(s),
        RespView::ProfileChanged => tag_profile_changed(),
        RespView::BrightnessSet => tag_brightness_set(),
        RespView::ProfileList(l) => tag_profile_list() + seq![SPACE] + ser_num(l.len() as int)
            + ser_string_list_from(l, 0),
        RespView::ScheduleAdded => tag_schedule_added(),
        RespView::Error(s) => tag_error() + seq![SPACE] + ser_string(s),
        RespView::Okay => tag_ok(),
    }
}

/// Decode `k` consecutive string fields.
pub open spec fn parse_string_items(b: Seq<u8>, k: int) -> Option<(Seq<Seq<char>>, Seq<u8>)>
    decreases k,
{
    if k <= 0 {
        Some((Seq::empty(), b))
    } else {
        match parse_sp_string(b) {
            Option::Some(p) => match str_of_bytes(p.0) {
                Option::Some(s) => match parse_string_items(p.1, k - 1) {
                    Option::Some(q) => Some((seq![s] + q.0, q.1)),
                    Option::None => None,
                },
                Option::None => None,
            },
            Option::None => None,
        }
    }
}

/// Decode a response: the tag word dispatches, the fields follow, and the
/// input must be consumed exactly.
pub open spec fn spec_parse_resp(b: Seq<u8>) -> Option<RespView> {
    let w = take_word(b);
    let rest = b.skip(w.len() as int);
    if w == tag_status() {
        match parse_sp_string(rest) {
            Option::Some(p1) => match str_of_bytes(p1.0) {
                Option::Some(ap) => match parse_sp_num(p1.1) {
                    Option::Some(p2) => {
                        if p2.0 <= u32::MAX {
                            match parse_sp_bool(p2.1) {
                                Option::Some(p3) => match parse_sp_bool(p3.1) {
                                    Option::Some(p4) => match parse_sp_opt_num(p4.1) {
                                        Option::Some(p5) => {
                                            if p5.1.len() == 0 && (p5.0 matches Some(n) ==> n
                                                <= u32::MAX) {
                                                Some(RespView::Status(StatusView {
                                                    active_profile: ap,
                                                    current_brightness: p2.0 as u32,
                                                    is_idle: p3.0,
                                                    is_fullscreen: p4.0,
                                                    manual_override: match p5.0 {
                                                        Option::Some(n) => Some(n as u32),
                                                        Option::None => None,
                                                    },
                                                }))
                                            } else {
                                                None
                                            }
                                        },
                                        Option::None => None,
                                    },
                                    Option::None => None,
                                },
                                Option::None => None,
                            }
                        } else {
                            None
                        }
                    },
                    Option::None => None,
                },
                Option::None => None,
            },
            Option::None => None,
        }
    } else if w == tag_profile_changed() {
        if rest.len() == 0 {
            Some(RespView::ProfileChanged)
        } else {
            None
        }
    } else if w == tag_brightness_set() {
        if rest.len() == 0 {
            Some(RespView::BrightnessSet)
        } else {
            None
        }
    } else if w == tag_profile_list() {
        match parse_sp_num(rest) {
            Option::Some(p) => match parse_string_items(p.1, p.0 as int) {
                Option::Some(q) => {
                    if q.1.len() == 0 {
                        Some(RespView::ProfileList(q.0))
                    } else {
                        None
                    }
                },
                Option::None => None,
            },
            Option::None => None,
        }
    } else if w == tag_schedule_added() {
        if rest.len() == 0 {
            Some(RespView::ScheduleAdded)
        } else {
            None
        }
    } else if w == tag_error() {
        match parse_sp_string(rest) {
            Option::Some(p) => {
                if p.1.len() == 0 {
                    match str_of_bytes(p.0) {
                        Option::Some(s) => Some(RespView::Error(s)),
                        Option::None => None,
                    }
                } else {
                    None
                }
            },
            Option::None => None,
        }
    } else if w == tag_ok() {
        if rest.len() == 0 {
            Some(RespView::Okay)
        } else {
            None
        }
    } else {
        None
    }
}

/// The encoded items of a profile-name list parse back to exactly those
/// items, consuming the whole encoding.
proof fn lemma_string_list_round_trip(l: Seq<Seq<char>>, i: int)
    requires
        0 <= i <= l.len(),
    ensures
        parse_string_items(ser_string_list_from(l, i), l.len() - i) matches Some(p) && p.0
            == l.skip(i) && p.1.len() == 0,
    decreases l.len() - i,
{
    if i == l.len() {
        assert(ser_string_list_from(l, i) =~= Seq::<u8>::empty());
        assert(l.skip(i) =~= Seq::<Seq<char>>::empty());
    } else {
        lemma_string_list_round_trip(l, i + 1);
        let restv = ser_string_list_from(l, i + 1);
        lemma_sp_quoted_round_trip(encode_utf8(l[i]), restv);
        assert(ser_string_list_from(l, i) =~= seq![SPACE] + ser_quoted(encode_utf8(l[i]))
            + restv);
        encode_utf8_valid_utf8(l[i]);
        encode_utf8_decode_utf8(l[i]);
        match parse_string_items(restv, l.len() - (i + 1)) {
            Option::Some(q) => {
                assert(seq![l[i]] + l.skip(i + 1) =~= l.skip(i));
            },
            Option::None => {},
        }
    }
}

/// No response tag contains a space.
pub proof fn lemma_resp_tags_wordlike()
    ensures
        forall|i: int| 0 <= i < tag_status().len() ==> #[trigger] tag_status()[i] != SPACE,
        forall|i: int| 0 <= i < tag_profile_changed().len() ==> #[trigger] tag_profile_changed()[i]
            != SPACE,
        forall|i: int| 0 <= i < tag_brightness_set().len() ==> #[trigger] tag_brightness_set()[i]
            != SPACE,
        forall|i: int| 0 <= i < tag_profile_list().len() ==> #[trigger] tag_profile_list()[i]
            != SPACE,
        forall|i: int| 0 <= i < tag_schedule_added().len() ==> #[trigger] tag_schedule_added()[i]
            != SPACE,
        forall|i: int| 0 <= i < tag_error().len() ==> #[trigger] tag_error()[i] != SPACE,
        forall|i: int| 0 <= i < tag_ok().len() ==> #[trigger] tag_ok()[i] != SPACE,
{
}

/// Decoding an encoded response returns exactly that response, for every
/// list that the wire's counter can carry.
#[verifier::rlimit(50)]
pub proof fn lemma_resp_round_trip(v: RespView)
    requires
        v matches RespView::ProfileList(l) ==> l.len() <= u64::MAX,
    ensures
        spec_parse_resp(ser_resp(v)) == Some(v),
{
    lemma_resp_tags_wordlike();
    let b = ser_resp(v);
    match v {
        RespView::Status(s) => {
            let f5 = seq![SPACE] + ser_opt_num(opt_u64(s.manual_override));
            let f4 = seq![SPACE] + ser_bool(s.is_fullscreen) + f5;
            let f3 = seq![SPACE] + ser_bool(s.is_idle) + f4;
            let f2 = seq![SPACE] + ser_num(s.current_brightness as int) + f3;
            let f1 = seq![SPACE] + ser_string(s.active_profile) + f2;
            lemma_take_word(tag_status(), f1);
            assert(b =~= tag_status() + f1);
            lemma_sp_quoted_round_trip(encode_utf8(s.active_profile), f2);
            assert(seq![SPACE] + ser_quoted(encode_utf8(s.active_profile)) + f2 =~= f1);
            encode_utf8_valid_utf8(s.active_profile);
            encode_utf8_decode_utf8(s.active_profile);
            lemma_sp_num_round_trip(s.current_brightness as u64, f3);
            assert(seq![SPACE] + ser_num(s.current_brightness as u64 as int) + f3 =~= f2);
            lemma_sp_bool_round_trip(s.is_idle, f4);
            assert(seq![SPACE] + ser_bool(s.is_idle) + f4 =~= f3);
            lemma_sp_bool_round_trip(s.is_fullscreen, f5);
            assert(seq![SPACE] + ser_bool(s.is_fullscreen) + f5 =~= f4);
            lemma_sp_opt_num_round_trip(opt_u64(s.manual_override), Seq::empty());
            assert(seq![SPACE] + ser_opt_num(opt_u64(s.manual_override)) + Seq::<u8>::empty()
                =~= f5);
        },
        RespView::ProfileChanged => {
            lemma_take_word(tag_profile_changed(), Seq::empty());
            assert(b =~= tag_profile_changed() + Seq::<u8>::empty());
        },
        RespView::BrightnessSet => {
            lemma_take_word(tag_brightness_set(), Seq::empty());
            assert(b =~= tag_brightness_set() + Seq::<u8>::empty());
        },
        RespView::ProfileList(l) => {
            let items = ser_string_list_from(l, 0);
            let f1 = seq![SPACE] + ser_num(l.len() as int) + items;
            lemma_take_word(tag_profile_list(), f1);
            assert(b =~= tag_profile_list() + f1);
            if l.len() > 0 {
                assert(items[0] == SPACE);
                assert(!is_digit(SPACE));
            }
            lemma_sp_num_round_trip(l.len() as u64, items);
            assert(seq![SPACE] + ser_num(l.len() as u64 as int) + items =~= f1);
            lemma_string_list_round_trip(l, 0);
            assert(l.skip(0) =~= l);
        },
        RespView::ScheduleAdded => {
            lemma_take_word(tag_schedule_added(), Seq::empty());
            assert(b =~= tag_schedule_added() + Seq::<u8>::empty());
        },
        RespView::Error(s) => {
            let rest = seq![SPACE] + ser_string(s);
            lemma_take_word(tag_error(), rest);
            assert(b =~= tag_error() + rest);
            lemma_sp_quoted_round_trip(encode_utf8(s), Seq::empty());
            assert(seq![SPACE] + ser_quoted(encode_utf8(s)) + Seq::<u8>::empty() =~= rest);
            encode_utf8_valid_utf8(s);
            encode_utf8_decode_utf8(s);
        },
        RespView::Okay => {
            lemma_take_word(tag_ok(), Seq::empty());
            assert(b =~= tag_ok() + Seq::<u8>::empty());
        },
    }
}

/// Re-encoding what was decoded from an encoded request gives bytes
/// identical to the first encoding.
pub proof fn lemma_msg_reserialize(v: MsgView, v2: MsgView)
    requires
        spec_parse_msg(ser_msg(v)) == Some(v2),
    ensures
        ser_msg(v2) == ser_msg(v),
{
    lemma_msg_round_trip(v);
}

/// Re-encoding what was decoded from an encoded response gives bytes
/// identical to the first encoding.
pub proof fn lemma_resp_reserialize(v: RespView, v2: RespView)
    requires
        v matches RespView::ProfileList(l) ==> l.len() <= u64::MAX,
        spec_parse_resp(ser_resp(v)) == Some(v2),
    ensures
        ser_resp(v2) == ser_resp(v),
{
    lemma_resp_round_trip(v);
}

fn tag_vec_status() -> (r: Vec<u8>)
    ensures
        r@ == tag_status(),
{
    let mut v: Vec<u8> = Vec::new();
    v.push('S' as u8);
    v.push('t' as u8);
    v.push('a' as u8);
    v.push('t' as u8);
    v.push('u' as u8);
    v.push('s' as u8);
    proof {
        assert(v@ =~= tag_status());
    }
    v
}

fn tag_vec_profile_changed() -> (r: Vec<u8>)
    ensures
        r@ == tag_profile_changed(),
{
    let mut v: Vec<u8> = Vec::new();
    v.push('P' as u8);
    v.push('r' as u8);
    v.push('o' as u8);
    v.push('f' as u8);
    v.push('i' as u8);
    v.push('l' as u8);
    v.push('e' as u8);
    v.push('C' as u8);
    v.push('h' as u8);
    v.push('a' as u8);
    v.push('n' as u8);
    v.push('g' as u8);
    v.push('e' as u8);
    v.push('d' as u8);
    proof {
        assert(v@ =~= tag_profile_changed());
    }
    v
}

fn tag_vec_brightness_set() -> (r: Vec<u8>)
    ensures
        r@ == tag_brightness_set(),
{
    let mut v: Vec<u8> = Vec::new();
    v.push('B' as u8);
    v.push('r' as u8);
    v.push('i' as u8);
    v.push('g' as u8);
    v.push('h' as u8);
    v.push('t' as u8);
    v.push('n' as u8);
    v.push('e' as u8);
    v.push('s' as u8);
    v.push('s' as u8);
    v.push('S' as u8);
    v.push('e' as u8);
    v.push('t' as u8);
    proof {
        assert(v@ =~= tag_brightness_set());
    }
    v
}

fn tag_vec_profile_list() -> (r: Vec<u8>)
    ensures
        r@ == tag_profile_list(),
{
    let mut v: Vec<u8> = Vec::new();
    v.push('P' as u8);
    v.push('r' as u8);
    v.push('o' as u8);
    v.push('f' as u8);
    v.push('i' as u8);
    v.push('l' as u8);
    v.push('e' as u8);
    v.push('L' as u8);
    v.push('i' as u8);
    v.push('s' as u8);
    v.push('t' as u8);
    proof {
        assert(v@ =~= tag_profile_list());
    }
    v
}

fn tag_vec_schedule_added() -> (r: Vec<u8>)
    ensures
        r@ == tag_schedule_added(),
{
    let mut v: Vec<u8> = Vec::new();
    v.push('S' as u8);
    v.push('c' as u8);
    v.push('h' as u8);
    v.push('e' as u8);
    v.push('d' as u8);
    v.push('u' as u8);
    v.push('l' as u8);
    v.push('e' as u8);
    v.push('A' as u8);
    v.push('d' as u8);
    v.push('d' as u8);
    v.push('e' as u8);
    v.push('d' as u8);
    proof {
        assert(v@ =~= tag_schedule_added());
    }
    v
}

fn tag_vec_error() -> (r: Vec<u8>)
    ensures
        r@ == tag_error(),
{
    let mut v: Vec<u8> = Vec::new();
    v.push('E' as u8);
    v.push('r' as u8);
    v.push('r' as u8);
    v.push('o' as u8);
    v.push('r' as u8);
    proof {
        assert(v@ =~= tag_error());
    }
    v
}

fn tag_vec_ok() -> (r: Vec<u8>)
    ensures
        r@ == tag_ok(),
{
    let mut v: Vec<u8> = Vec::new();
    v.push('O' as u8);
    v.push('k' as u8);
    proof {
        assert(v@ =~= tag_ok());
    }
    v
}

impl IpcResponse {
    /// Encode this response as its wire payload. Never fails; the `Result`
    /// mirrors the channel API.
    #[verifier::rlimit(50)]
    pub fn serialize(&self) -> (r: Result<Vec<u8>, Error>)
        ensures
            r matches Ok(v) && v@ == ser_resp(self@),
    {
        let mut out: Vec<u8>;
        match self {
            IpcResponse::Status(info) => {
                out = tag_vec_status();
                push_string_field(&mut out, info.active_profile.as_str());
                out.push(SPACE);
                push_num(&mut out, info.current_brightness as u64);
                out.push(SPACE);
                push_bool(&mut out, info.is_idle);
                out.push(SPACE);
                push_bool(&mut out, info.is_fullscreen);
                out.push(SPACE);
                match info.manual_override {
                    Some(n) => {
                        push_opt_num(&mut out, Some(n as u64));
                    },
                    None => {
                        push_opt_num(&mut out, None);
                    },
                }
                proof {
                    assert(out@ =~= ser_resp(self@));
                }
            },
            IpcResponse::ProfileChanged => {
                out = tag_vec_profile_changed();
            },
            IpcResponse::BrightnessSet => {
                out = tag_vec_brightness_set();
            },
            IpcResponse::ProfileList(l) => {
                out = tag_vec_profile_list();
                out.push(SPACE);
                let count: usize = l.len();
                push_num(&mut out, count as u64);
                let ghost lv: Seq<Seq<char>> = l@.map_values(|s: String| s@);
                let ghost base: Seq<u8> = out@;
                let mut i: usize = 0;
                while i < count
                    invariant
                        count == l@.len(),
                        lv == l@.map_values(|s: String| s@),
                        i <= count,
                        base + ser_string_list_from(lv, 0) == out@ + ser_string_list_from(
                            lv,
                            i as int,
                        ),
                    decreases count - i,
                {
                    let ghost out0: Seq<u8> = out@;
                    push_string_field(&mut out, l[i].as_str());
                    proof {
                        assert(lv[i as int] == l@[i as int]@);
                        assert(out@ =~= out0 + (seq![SPACE] + ser_string(lv[i as int])));
                        assert(ser_string_list_from(lv, i as int) =~= seq![SPACE] + ser_string(
                            lv[i as int],
                        ) + ser_string_list_from(lv, i as int + 1));
                        assert(out0 + ser_string_list_from(lv, i as int) =~= out@
                            + ser_string_list_from(lv, i as int + 1));
                    }
                    i = i + 1;
                }
                proof {
                    assert(ser_string_list_from(lv, count as int) =~= Seq::<u8>::empty());
                    assert(out@ + ser_string_list_from(lv, count as int) =~= out@);
                    assert(out@ =~= base + ser_string_list_from(lv, 0));
                    assert(out@ =~= ser_resp(self@));
                }
            },
            IpcResponse::ScheduleAdded => {
                out = tag_vec_schedule_added();
            },
            IpcResponse::Error(s) => {
                out = tag_vec_error();
                push_string_field(&mut out, s.as_str());
                proof {
                    assert(out@ =~= ser_resp(self@));
                }
            },
            IpcResponse::Okay => {
                out = tag_vec_ok();
            },
        }
        Ok(out)
    }

    /// Decode a response from its wire payload.
    pub fn deserialize(data: &[u8]) -> (r: Result<IpcResponse, Error>)
        ensures
            match spec_parse_resp(data@) {
                Option::Some(v) => r matches Ok(m) && m@ == v,
                Option::None => r matches Err(e) && e matches Error::IpcProtocol(_),
            },
    {
        let end = scan_word(data, 0);
        let ghost w = take_word(data@);
        let ghost rest = data@.skip(w.len() as int);
        proof {
            assert(data@.skip(0) =~= data@);
            assert(w == data@.subrange(0, end as int));
            assert(rest =~= data@.skip(end as int));
        }
        let n = data.len();
        if range_eq(data, 0, end, tag_vec_status().as_slice()) {
            let p1 = match parse_field_string(data, end) {
                Some(p) => p,
                None => {
                    return Err(Error::ipc_protocol("malformed Status".to_owned()));
                },
            };
            let ap = match bytes_to_string(p1.0) {
                Some(s) => s,
                None => {
                    return Err(Error::ipc_protocol("invalid text in Status".to_owned()));
                },
            };
            let p2 = match parse_field_num(data, p1.1) {
                Some(p) => p,
                None => {
                    return Err(Error::ipc_protocol("malformed Status".to_owned()));
                },
            };
            if p2.0 > u32::MAX as u64 {
                return Err(Error::ipc_protocol("malformed Status".to_owned()));
            }
            let p3 = match parse_field_bool(data, p2.1) {
                Some(p) => p,
                None => {
                    return Err(Error::ipc_protocol("malformed Status".to_owned()));
                },
            };
            let p4 = match parse_field_bool(data, p3.1) {
                Some(p) => p,
                None => {
                    return Err(Error::ipc_protocol("malformed Status".to_owned()));
                },
            };
            let p5 = match parse_field_opt_num(data, p4.1) {
                Some(p) => p,
                None => {
                    return Err(Error::ipc_protocol("malformed Status".to_owned()));
                },
            };
            let mo: Option<u32> = match p5.0 {
                Some(nv) => {
                    if nv > u32::MAX as u64 {
                        return Err(Error::ipc_protocol("malformed Status".to_owned()));
                    }
                    Some(nv as u32)
                },
                None => None,
            };
            if p5.1 != n {
                return Err(Error::ipc_protocol("unexpected bytes after Status".to_owned()));
            }
            return Ok(IpcResponse::Status(StatusInfo {
                active_profile: ap,
                current_brightness: p2.0 as u32,
                is_idle: p3.0,
                is_fullscreen: p4.0,
                manual_override: mo,
            }));
        }
        if range_eq(data, 0, end, tag_vec_profile_changed().as_slice()) {
            if end == n {
                return Ok(IpcResponse::ProfileChanged);
            }
            return Err(Error::ipc_protocol("unexpected bytes after ProfileChanged".to_owned()));
        }
        if range_eq(data, 0, end, tag_vec_brightness_set().as_slice()) {
            if end == n {
                return Ok(IpcResponse::BrightnessSet);
            }
            return Err(Error::ipc_protocol("unexpected bytes after BrightnessSet".to_owned()));
        }
        if range_eq(data, 0, end, tag_vec_profile_list().as_slice()) {
            let pc = match parse_field_num(data, end) {
                Some(p) => p,
                None => {
                    return Err(Error::ipc_protocol("malformed ProfileList".to_owned()));
                },
            };
            let count: u64 = pc.0;
            let ghost rest0: Seq<u8> = data@.skip(pc.1 as int);
            let ghost listed: Option<RespView> = (match parse_string_items(rest0, count as int) {
                Option::Some(q) => if q.1.len() == 0 {
                    Some(RespView::ProfileList(q.0))
                } else {
                    None
                },
                Option::None => None,
            });
            proof {
                assert(spec_parse_resp(data@) == listed);
            }
            let mut acc: Vec<String> = Vec::new();
            let mut pos: usize = pc.1;
            let mut idx: u64 = 0;
            while idx < count
                invariant
                    pos <= data@.len(),
                    idx <= count,
                    rest0 == data@.skip(pc.1 as int),
                    spec_parse_resp(data@) == listed,
                    listed == (match parse_string_items(rest0, count as int) {
                        Option::Some(q) => if q.1.len() == 0 {
                            Some(RespView::ProfileList(q.0))
                        } else {
                            None
                        },
                        Option::None => None,
                    }),
                    match parse_string_items(data@.skip(pos as int), count - idx) {
                        Option::Some(q) => parse_string_items(rest0, count as int) matches Some(
                            q0,
                        ) && q0.0 == acc@.map_values(|s: String| s@) + q.0 && q0.1 == q.1,
                        Option::None => parse_string_items(rest0, count as int) is None,
                    },
                decreases count - idx,
            {
                let p = match parse_field_string(data, pos) {
                    Some(p) => p,
                    None => {
                        proof {
                            assert(count - idx > 0);
                            assert(parse_string_items(data@.skip(pos as int), count - idx)
                                is None);
                        }
                        return Err(Error::ipc_protocol("malformed ProfileList".to_owned()));
                    },
                };
                let s = match bytes_to_string(p.0) {
                    Some(s) => s,
                    None => {
                        proof {
                            assert(count - idx > 0);
                            assert(parse_string_items(data@.skip(pos as int), count - idx)
                                is None);
                        }
                        return Err(Error::ipc_protocol(
                            "invalid text in ProfileList".to_owned(),
                        ));
                    },
                };
                let ghost acc0: Seq<String> = acc@;
                acc.push(s);
                proof {
                    match parse_string_items(data@.skip(p.1 as int), count - idx - 1) {
                        Option::Some(q) => {
                            assert(acc0.map_values(|s0: String| s0@) + (seq![s@] + q.0)
                                =~= acc0.push(s).map_values(|s0: String| s0@) + q.0);
                        },
                        Option::None => {},
                    }
                }
                pos = p.1;
                idx = idx + 1;
            }
            if pos != n {
                return Err(Error::ipc_protocol("unexpected bytes after ProfileList".to_owned()));
            }
            proof {
                assert(parse_string_items(data@.skip(pos as int), 0) == Some::<(
                    Seq<Seq<char>>,
                    Seq<u8>,
                )>((Seq::empty(), data@.skip(pos as int))));
                assert(acc@.map_values(|s: String| s@) + Seq::<Seq<char>>::empty()
                    =~= acc@.map_values(|s: String| s@));
            }
            return Ok(IpcResponse::ProfileList(acc));
        }
        if range_eq(data, 0, end, tag_vec_schedule_added().as_slice()) {
            if end == n {
                return Ok(IpcResponse::ScheduleAdded);
            }
            return Err(Error::ipc_protocol("unexpected bytes after ScheduleAdded".to_owned()));
        }
        if range_eq(data, 0, end, tag_vec_error().as_slice()) {
            match parse_field_string(data, end) {
                Some(p) => {
                    if p.1 == n {
                        match bytes_to_string(p.0) {
                            Some(s) => {
                                return Ok(IpcResponse::Error(s));
                            },
                            None => {
                                return Err(Error::ipc_protocol(
                                    "invalid text in Error".to_owned(),
                                ));
                            },
                        }
                    }
                    return Err(Error::ipc_protocol("unexpected bytes after Error".to_owned()));
                },
                None => {
                    return Err(Error::ipc_protocol("malformed Error".to_owned()));
                },
            }
        }
        if range_eq(data, 0, end, tag_vec_ok().as_slice()) {
            if end == n {
                return Ok(IpcResponse::Okay);
            }
            return Err(Error::ipc_protocol("unexpected bytes after Ok".to_owned()));
        }
        Err(Error::ipc_protocol("unknown response".to_owned()))
    }
}

/// Build the framed form of a payload: the 4-byte big-endian length prefix,
/// then the payload itself. An empty or oversized payload is rejected.
pub fn frame_payload(payload: &[u8]) -> (r: Result<Vec<u8>, Error>)
    ensures
        1 <= payload@.len() <= MAX_PAYLOAD ==> (r matches Ok(v) && v@.len() == 4
            + payload@.len() && be32_val(v@.take(4)) == payload@.len() && v@.skip(4) == payload@),
        payload@.len() == 0 ==> (r matches Err(e) && e matches Error::IpcProtocol(_)),
        payload@.len() > MAX_PAYLOAD ==> (r matches Err(e) && e matches Error::IpcProtocol(_)),
{
    let n: usize = payload.len();
    if n == 0 {
        return Err(Error::ipc_protocol("zero-length message".to_owned()));
    }
    if n > MAX_PAYLOAD as usize {
        return Err(Error::ipc_protocol("message too large".to_owned()));
    }
    let mut out = encode_frame_len(n as u32);
    let ghost prefix: Seq<u8> = out@;
    push_bytes(&mut out, payload);
    proof {
        assert(out@.take(4) =~= prefix);
        assert(out@.skip(4) =~= payload@);
    }
    Ok(out)
}

/// Check a received 4-byte length prefix: the announced body length must be
/// non-zero and at most the payload bound. The check decides before any of
/// the body is read; an announcement over the bound is rejected outright.
pub fn parse_frame_header(b: &[u8]) -> (r: Result<u32, Error>)
    requires
        b@.len() == 4,
    ensures
        (1 <= be32_val(b@) <= MAX_PAYLOAD) <==> (r matches Ok(v) && v == be32_val(b@)),
        be32_val(b@) == 0 ==> (r matches Err(e) && e matches Error::IpcProtocol(_)),
        be32_val(b@) > MAX_PAYLOAD ==> (r matches Err(e) && e matches Error::IpcProtocol(_)),
{
    let len = decode_frame_len(b);
    if len == 0 {
        Err(Error::ipc_protocol("zero-length message announced".to_owned()))
    } else if len > MAX_PAYLOAD {
        Err(Error::ipc_protocol("announced message too large".to_owned()))
    } else {
        Ok(len)
    }
}

} // verus!
