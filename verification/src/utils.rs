//! Shared support: engine configuration, error reporting, and binary-text
//! helpers.

use vstd::prelude::*;
use vstd::string::StringSliceAdditionalSpecFns;
use crate::logger::LogLevel;
use crate::storage::str_to_string;
use crate::text::{hex_byte_chars, hex_chars, push_hex_byte};

verus! {

/// Engine-wide tunables.
pub struct EngineConfig {
    pub page_cache_size: usize,
    pub max_memory_usage: usize,
    pub log_level: LogLevel,
    pub profiling_enabled: bool,
    pub parallel_execution: bool,
    pub debug_assertions: bool,
}

impl Default for EngineConfig {
    /// The stock configuration: a two-thousand-page cache, a hundred
    /// megabytes, informational logging, and no extra checking.
    fn default() -> (r: Self)
        ensures
            r.page_cache_size == 2000,
            r.max_memory_usage == 0x6400000,
            r.log_level == LogLevel::Info,
            !r.profiling_enabled,
            r.parallel_execution,
            !r.debug_assertions,
    {
        EngineConfig {
            page_cache_size: 2000,
            max_memory_usage: 100 * 1024 * 1024,
            log_level: LogLevel::Info,
            profiling_enabled: false,
            parallel_execution: true,
            debug_assertions: false,
        }
    }
}

/// Severity of a reported engine error.
#[derive(Debug, Clone, Copy, PartialEq, Eq, Structural)]
pub enum ErrorLevel {
    Warning,
    Error,
    Fatal,
}

/// A reported engine error.
#[derive(Debug, Clone)]
pub struct EngineError {
    pub level: ErrorLevel,
    pub message: String,
    pub code: u32,
    pub source_location: Option<String>,
}

/// Declares `anyhow::Error` so chains of caused-by errors can flow through
/// verified reporting code.
#[verifier::external_type_specification]
#[verifier::external_body]
pub struct ExAnyhowError(anyhow::Error);

/// Relies on `anyhow::Error::chain`: the messages of the error and each
/// cause below it, outermost first.
#[verifier::external_body]
fn error_chain_messages(error: &anyhow::Error) -> (r: Vec<String>)
    ensures
        r@.len() >= 1,
{
    error.chain().map(|e| e.to_string()).collect()
}

/// What the rendered chain reads from the second message on: each cause
/// indented two more spaces than the one above it.
pub open spec fn spec_chain_tail(msgs: Seq<String>, i: int, indent: int) -> Seq<char>
    decreases msgs.len() - i,
{
    if i >= msgs.len() {
        Seq::empty()
    } else {
        spec_spaces(indent * 2) + "Caused by: "@ + msgs[i]@ + "\n"@ + spec_chain_tail(
            msgs,
            i + 1,
            indent + 1,
        )
    }
}

/// `n` spaces.
pub open spec fn spec_spaces(n: int) -> Seq<char>
    decreases n,
{
    if n <= 0 {
        Seq::empty()
    } else {
        spec_spaces(n - 1) + " "@
    }
}

/// Render an error and every cause below it, one line each, causes
/// indented two spaces more per level.
pub fn format_error_chain(error: &anyhow::Error) -> (r: String)
    ensures
        exists|msgs: Seq<String>|
            msgs.len() >= 1 && r@ == "Error: "@ + msgs[0]@ + "\n"@ + #[trigger] spec_chain_tail(
                msgs,
                1,
                1,
            ),
{
    let msgs = error_chain_messages(error);
    format_message_chain(&msgs)
}

/// Render an already-collected message chain; the first message is the
/// error itself, the rest its causes.
pub fn format_message_chain(msgs: &Vec<String>) -> (r: String)
    requires
        msgs@.len() >= 1,
    ensures
        r@ == "Error: "@ + msgs@[0]@ + "\n"@ + spec_chain_tail(msgs@, 1, 1),
{
    let mut out = str_to_string("Error: ");
    out.append(msgs[0].as_str());
    out.append("\n");
    let n = msgs.len();
    let mut i: usize = 1;
    let mut pad = str_to_string("  ");
    let ghost head: Seq<char> = "Error: "@ + msgs@[0]@ + "\n"@;
    proof {
        assert(out@ =~= head + spec_chain_prefix(msgs@, 1, i as int, 1));
        assert(pad@ =~= spec_spaces(2)) by {
            reveal_strlit("  ");
            reveal_strlit(" ");
            reveal_with_fuel(spec_spaces, 3);
            assert(spec_spaces(1) =~= " "@);
            assert(spec_spaces(2) =~= spec_spaces(1) + " "@);
        }
    }
    while i < n
        invariant
            1 <= i <= n,
            n == msgs@.len(),
            pad@ =~= spec_spaces(2 * i as int),
            out@ =~= head + spec_chain_prefix(msgs@, 1, i as int, 1),
        decreases n - i,
    {
        out.append(pad.as_str());
        out.append("Caused by: ");
        out.append(msgs[i].as_str());
        out.append("\n");
        pad.append("  ");
        proof {
            lemma_chain_prefix_step(msgs@, 1, i as int, 1);
            assert(spec_spaces(2 * i as int) + "  "@ =~= spec_spaces(2 * (i + 1))) by {
                reveal_strlit("  ");
                reveal_strlit(" ");
                reveal_with_fuel(spec_spaces, 3);
                assert(spec_spaces(2 * (i as int) + 2) =~= spec_spaces(2 * i as int + 1) + " "@);
                assert(spec_spaces(2 * (i as int) + 1) =~= spec_spaces(2 * i as int) + " "@);
            }
        }
        i = i + 1;
    }
    proof {
        lemma_chain_prefix_full(msgs@, 1, 1);
        assert(out@ =~= head + spec_chain_tail(msgs@, 1, 1));
    }
    out
}

/// The rendered causes from `from` up to `upto`.
pub open spec fn spec_chain_prefix(msgs: Seq<String>, from: int, upto: int, indent: int) -> Seq<
    char,
>
    decreases upto - from,
{
    if from >= upto {
        Seq::empty()
    } else {
        spec_spaces(indent * 2) + "Caused by: "@ + msgs[from]@ + "\n"@ + spec_chain_prefix(
            msgs,
            from + 1,
            upto,
            indent + 1,
        )
    }
}

proof fn lemma_chain_prefix_step(msgs: Seq<String>, from: int, upto: int, indent: int)
    requires
        from <= upto,
    ensures
        spec_chain_prefix(msgs, from, upto + 1, indent) =~= spec_chain_prefix(
            msgs,
            from,
            upto,
            indent,
        ) + (spec_spaces((indent + upto - from) * 2) + "Caused by: "@ + msgs[upto]@ + "\n"@),
    decreases upto - from,
{
    if from == upto {
        assert(spec_chain_prefix(msgs, from, upto, indent) =~= Seq::<char>::empty());
        assert(spec_chain_prefix(msgs, from + 1, upto + 1, indent + 1) =~= Seq::<char>::empty());
    } else {
        lemma_chain_prefix_step(msgs, from + 1, upto, indent + 1);
        let a = spec_spaces(indent * 2) + "Caused by: "@ + msgs[from]@ + "\n"@;
        let b = spec_chain_prefix(msgs, from + 1, upto, indent + 1);
        let c = spec_spaces((indent + upto - from) * 2) + "Caused by: "@ + msgs[upto]@ + "\n"@;
        assert(spec_chain_prefix(msgs, from, upto + 1, indent) =~= a + (b + c));
        assert(a + (b + c) =~= (a + b) + c);
    }
}

proof fn lemma_chain_prefix_full(msgs: Seq<String>, from: int, indent: int)
    ensures
        spec_chain_prefix(msgs, from, msgs.len() as int, indent) =~= spec_chain_tail(
            msgs,
            from,
            indent,
        ),
    decreases msgs.len() - from,
{
    if from < msgs.len() {
        lemma_chain_prefix_full(msgs, from + 1, indent + 1);
    }
}

/// Render bytes as lower-case hex, two characters per byte.
pub fn to_hex_string(bytes: &[u8]) -> (r: String)
    ensures
        r@ == hex_chars(bytes@),
{
    let mut out = String::new();
    let n = bytes.len();
    let mut i: usize = 0;
    proof {
        lemma_hex_chars_take(bytes@, 0);
        assert(out@ =~= hex_chars(bytes@.take(0)));
    }
    while i < n
        invariant
            0 <= i <= n,
            n == bytes@.len(),
            out@ =~= hex_chars(bytes@.take(i as int)),
        decreases n - i,
    {
        proof {
            lemma_hex_chars_take(bytes@, i + 1);
        }
        push_hex_byte(&mut out, bytes[i]);
        i = i + 1;
    }
    proof {
        assert(bytes@.take(n as int) =~= bytes@);
    }
    out
}

proof fn lemma_hex_chars_take(s: Seq<u8>, i: int)
    requires
        0 <= i <= s.len(),
    ensures
        i == 0 ==> hex_chars(s.take(0)) =~= Seq::<char>::empty(),
        i > 0 ==> hex_chars(s.take(i)) =~= hex_chars(s.take(i - 1)) + hex_byte_chars(
            s[i - 1] as int,
        ),
    decreases i,
{
    if i == 0 {
        assert(s.take(0) =~= Seq::<u8>::empty());
    } else {
        lemma_hex_chars_push(s.take(i - 1), s[i - 1]);
        assert(s.take(i) =~= s.take(i - 1).push(s[i - 1]));
    }
}

proof fn lemma_hex_chars_push(s: Seq<u8>, x: u8)
    ensures
        hex_chars(s.push(x)) =~= hex_chars(s) + hex_byte_chars(x as int),
    decreases s.len(),
{
    if s.len() == 0 {
        assert(s.push(x).drop_first() =~= Seq::<u8>::empty());
        assert(s.push(x)[0] == x);
        assert(hex_chars(Seq::<u8>::empty()) =~= Seq::<char>::empty());
        assert(hex_chars(s.push(x)) =~= hex_byte_chars(x as int));
        assert(hex_chars(s) =~= Seq::<char>::empty());
    } else {
        lemma_hex_chars_push(s.drop_first(), x);
        assert(s.push(x).drop_first() =~= s.drop_first().push(x));
        assert(s.push(x)[0] == s[0]);
        assert(hex_byte_chars(s[0] as int) + (hex_chars(s.drop_first()) + hex_byte_chars(
            x as int,
        )) =~= (hex_byte_chars(s[0] as int) + hex_chars(s.drop_first())) + hex_byte_chars(
            x as int,
        ));
    }
}

/// A hex string that could not be read back as bytes.
#[derive(Debug, Clone, Copy, PartialEq, Eq, Structural)]
pub struct HexParseError;

/// Value of one hex digit character's byte, if it is one.
pub open spec fn spec_hex_val(b: u8) -> Option<int> {
    if 48 <= b <= 57 {
        Some(b - 48)
    } else if 97 <= b <= 102 {
        Some(b - 87)
    } else if 65 <= b <= 70 {
        Some(b - 55)
    } else {
        None
    }
}

/// The bytes a hex text's byte sequence reads back to, pairwise from `i`;
/// a trailing odd character is ignored, and any non-digit fails.
pub open spec fn spec_from_hex(s: Seq<u8>, i: int) -> Result<Seq<u8>, HexParseError>
    decreases s.len() - i,
{
    if i + 2 > s.len() || i < 0 {
        Ok(Seq::empty())
    } else {
        match (spec_hex_val(s[i]), spec_hex_val(s[i + 1])) {
            (Some(h), Some(l)) => match spec_from_hex(s, i + 2) {
                Ok(rest) => Ok(seq![(h * 16 + l) as u8] + rest),
                Err(e) => Err(e),
            },
            _ => Err(HexParseError),
        }
    }
}

/// Read lower- or upper-case hex back into bytes, two characters per byte;
/// a trailing odd character is ignored, and any non-digit pair fails.
pub fn from_hex_string(hex: &str) -> (r: Result<Vec<u8>, HexParseError>)
    ensures
        match r {
            Ok(v) => spec_from_hex(hex.spec_bytes(), 0) == Ok::<Seq<u8>, HexParseError>(v@),
            Err(e) => spec_from_hex(hex.spec_bytes(), 0) == Err::<Seq<u8>, HexParseError>(e),
        },
{
    let bs = hex.as_bytes();
    let n = bs.len();
    let mut out: Vec<u8> = Vec::new();
    let mut i: usize = 0;
    proof {
        match spec_from_hex(bs@, 0) {
            Ok(rest) => {
                assert(out@ + rest =~= rest);
            },
            Err(_) => {},
        }
    }
    while i < n && i + 1 < n
        invariant
            0 <= i <= n,
            n == bs@.len(),
            bs@ == hex.spec_bytes(),
            match spec_from_hex(bs@, i as int) {
                Ok(rest) => spec_from_hex(bs@, 0) == Ok::<Seq<u8>, HexParseError>(out@ + rest),
                Err(e) => spec_from_hex(bs@, 0) == Err::<Seq<u8>, HexParseError>(e),
            },
        decreases n - i,
    {
        let h = hex_val(bs[i]);
        let l = hex_val(bs[i + 1]);
        match (h, l) {
            (Some(hv), Some(lv)) => {
                let ghost pre = out@;
                out.push(hv * 16 + lv);
                proof {
                    match spec_from_hex(bs@, i + 2) {
                        Ok(rest) => {
                            assert(pre + (seq![(hv * 16 + lv) as u8] + rest) =~= out@ + rest);
                        },
                        Err(_) => {},
                    }
                }
                i = i + 2;
            },
            _ => {
                return Err(HexParseError);
            },
        }
    }
    proof {
        assert(spec_from_hex(bs@, i as int) == Ok::<Seq<u8>, HexParseError>(Seq::empty()));
        assert(out@ + Seq::<u8>::empty() =~= out@);
    }
    Ok(out)
}

/// Value of one hex digit byte, if it is one.
fn hex_val(b: u8) -> (r: Option<u8>)
    ensures
        match r {
            Some(v) => spec_hex_val(b) == Some(v as int) && v < 16,
            None => spec_hex_val(b) is None,
        },
{
    if 48 <= b && b <= 57 {
        Some(b - 48)
    } else if 97 <= b && b <= 102 {
        Some(b - 87)
    } else if 65 <= b && b <= 70 {
        Some(b - 55)
    } else {
        None
    }
}

/// Swap a 32-bit value between little and big endian byte orders.
pub fn swap_endian_u32(value: u32) -> (r: u32)
    ensures
        r == (value % 0x100) * 0x1000000 + (value / 0x100 % 0x100) * 0x10000 + (value / 0x10000
            % 0x100) * 0x100 + value / 0x1000000,
{
    let r = ((value & 0xFF) << 24) | ((value & 0xFF00) << 8) | ((value & 0xFF0000) >> 8) | ((value
        & 0xFF000000) >> 24);
    proof {
        assert(((value & 0xFF) << 24) | ((value & 0xFF00) << 8) | ((value & 0xFF0000) >> 8) | ((
        value & 0xFF000000) >> 24) == ((value % 0x100) * 0x1000000 + (value / 0x100 % 0x100)
            * 0x10000 + (value / 0x10000 % 0x100) * 0x100 + value / 0x1000000) as u32)
            by (bit_vector);
    }
    r
}

} // verus!
