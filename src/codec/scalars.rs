//! The scalar types that std reads and writes: `bool` and every integer width.
use vstd::prelude::*;

use crate::codec::literal::{decimal, lemma_decimal, signed_literal, unsigned_literal};
use crate::codec::{parse_config_value, scalar_error, scalar_parsed, ConfigValue, Literal};
use crate::error::ConfigError;
use crate::text::{lemma_lowercase_noop, lemma_trim_noop, lowercase_of, trim_ws};

verus! {

/// The description of the failure of `bool::from_str` on `s`.
pub uninterp spec fn bool_parse_error(s: Seq<char>) -> Seq<char>;

/// Relies on `bool::from_str`: it accepts exactly `true` and `false`.
#[verifier::external_body]
fn read_bool(s: &str) -> (r: Result<bool, String>)
    ensures
        match r {
            Ok(v) => <bool as Literal>::literal(s@) == Some(v),
            Err(m) => <bool as Literal>::literal(s@) is None && m@ == bool_parse_error(s@),
        },
{
    s.parse::<bool>().map_err(|e| e.to_string())
}

/// Relies on `bool`'s `Display`: it writes `true` or `false`.
#[verifier::external_body]
fn write_bool(v: bool) -> (r: String)
    ensures
        r@ == <bool as Literal>::text(v),
{
    v.to_string()
}

impl Literal for bool {
    open spec fn literal(s: Seq<char>) -> Option<bool> {
        if s == "true"@ {
            Some(true)
        } else if s == "false"@ {
            Some(false)
        } else {
            None
        }
    }

    open spec fn error_text(s: Seq<char>) -> Seq<char> {
        bool_parse_error(s)
    }

    open spec fn text(v: bool) -> Seq<char> {
        if v {
            "true"@
        } else {
            "false"@
        }
    }

    fn from_literal(s: &str) -> (r: Result<bool, String>) {
        read_bool(s)
    }

    fn to_text(&self) -> (r: String) {
        write_bool(*self)
    }

    proof fn lemma_text_reads_back(v: bool) {
        reveal_strlit("true");
        reveal_strlit("false");
        assert("true"@ != "false"@) by {
            assert("true"@.len() != "false"@.len());
        }
        lemma_trim_noop(Self::text(v));
        lemma_lowercase_noop(Self::text(v));
    }
}

impl ConfigValue for bool {
    open spec fn parsed(s: Seq<char>) -> Option<bool> {
        scalar_parsed::<bool>(s)
    }

    open spec fn parse_error(s: Seq<char>) -> Seq<char> {
        scalar_error::<bool>(s)
    }

    open spec fn config_text(v: bool) -> Seq<char> {
        <bool as Literal>::text(v)
    }

    fn parse(key: &str, value_str: &str) -> (r: Result<bool, ConfigError>) {
        parse_config_value::<bool>(key, value_str)
    }

    fn to_config_string(&self) -> (r: String) {
        self.to_text()
    }
}

/// The description of the failure of `u8::from_str` on `s`.
pub uninterp spec fn u8_parse_error(s: Seq<char>) -> Seq<char>;

/// Relies on `u8::from_str`: an optional `+` and decimal digits, whose value fits in `u8`.
#[verifier::external_body]
fn read_u8(s: &str) -> (r: Result<u8, String>)
    ensures
        match r {
            Ok(v) => <u8 as Literal>::literal(s@) == Some(v),
            Err(m) => <u8 as Literal>::literal(s@) is None && m@ == u8_parse_error(s@),
        },
{
    s.parse::<u8>().map_err(|e| e.to_string())
}

/// Relies on `u8`'s `Display`: decimal digits, with `-` before a negative value.
#[verifier::external_body]
fn write_u8(v: u8) -> (r: String)
    ensures
        r@ == <u8 as Literal>::text(v),
{
    v.to_string()
}

impl Literal for u8 {
    open spec fn literal(s: Seq<char>) -> Option<u8> {
        match unsigned_literal(s) {
            Some(n) => if 0 <= n && n <= u8::MAX {
                Some(n as u8)
            } else {
                None
            },
            None => None,
        }
    }

    open spec fn error_text(s: Seq<char>) -> Seq<char> {
        u8_parse_error(s)
    }

    open spec fn text(v: u8) -> Seq<char> {
        decimal(v as int)
    }

    fn from_literal(s: &str) -> (r: Result<u8, String>) {
        read_u8(s)
    }

    fn to_text(&self) -> (r: String) {
        write_u8(*self)
    }

    proof fn lemma_text_reads_back(v: u8) {
        lemma_decimal(v as int);
    }
}

impl ConfigValue for u8 {
    open spec fn parsed(s: Seq<char>) -> Option<u8> {
        scalar_parsed::<u8>(s)
    }

    open spec fn parse_error(s: Seq<char>) -> Seq<char> {
        scalar_error::<u8>(s)
    }

    open spec fn config_text(v: u8) -> Seq<char> {
        <u8 as Literal>::text(v)
    }

    fn parse(key: &str, value_str: &str) -> (r: Result<u8, ConfigError>) {
        parse_config_value::<u8>(key, value_str)
    }

    fn to_config_string(&self) -> (r: String) {
        self.to_text()
    }
}

/// The description of the failure of `u16::from_str` on `s`.
pub uninterp spec fn u16_parse_error(s: Seq<char>) -> Seq<char>;

/// Relies on `u16::from_str`: an optional `+` and decimal digits, whose value fits in `u16`.
#[verifier::external_body]
fn read_u16(s: &str) -> (r: Result<u16, String>)
    ensures
        match r {
            Ok(v) => <u16 as Literal>::literal(s@) == Some(v),
            Err(m) => <u16 as Literal>::literal(s@) is None && m@ == u16_parse_error(s@),
        },
{
    s.parse::<u16>().map_err(|e| e.to_string())
}

/// Relies on `u16`'s `Display`: decimal digits, with `-` before a negative value.
#[verifier::external_body]
fn write_u16(v: u16) -> (r: String)
    ensures
        r@ == <u16 as Literal>::text(v),
{
    v.to_string()
}

impl Literal for u16 {
    open spec fn literal(s: Seq<char>) -> Option<u16> {
        match unsigned_literal(s) {
            Some(n) => if 0 <= n && n <= u16::MAX {
                Some(n as u16)
            } else {
                None
            },
            None => None,
        }
    }

    open spec fn error_text(s: Seq<char>) -> Seq<char> {
        u16_parse_error(s)
    }

    open spec fn text(v: u16) -> Seq<char> {
        decimal(v as int)
    }

    fn from_literal(s: &str) -> (r: Result<u16, String>) {
        read_u16(s)
    }

    fn to_text(&self) -> (r: String) {
        write_u16(*self)
    }

    proof fn lemma_text_reads_back(v: u16) {
        lemma_decimal(v as int);
    }
}

impl ConfigValue for u16 {
    open spec fn parsed(s: Seq<char>) -> Option<u16> {
        scalar_parsed::<u16>(s)
    }

    open spec fn parse_error(s: Seq<char>) -> Seq<char> {
        scalar_error::<u16>(s)
    }

    open spec fn config_text(v: u16) -> Seq<char> {
        <u16 as Literal>::text(v)
    }

    fn parse(key: &str, value_str: &str) -> (r: Result<u16, ConfigError>) {
        parse_config_value::<u16>(key, value_str)
    }

    fn to_config_string(&self) -> (r: String) {
        self.to_text()
    }
}

/// The description of the failure of `u32::from_str` on `s`.
pub uninterp spec fn u32_parse_error(s: Seq<char>) -> Seq<char>;

/// Relies on `u32::from_str`: an optional `+` and decimal digits, whose value fits in `u32`.
#[verifier::external_body]
fn read_u32(s: &str) -> (r: Result<u32, String>)
    ensures
        match r {
            Ok(v) => <u32 as Literal>::literal(s@) == Some(v),
            Err(m) => <u32 as Literal>::literal(s@) is None && m@ == u32_parse_error(s@),
        },
{
    s.parse::<u32>().map_err(|e| e.to_string())
}

/// Relies on `u32`'s `Display`: decimal digits, with `-` before a negative value.
#[verifier::external_body]
fn write_u32(v: u32) -> (r: String)
    ensures
        r@ == <u32 as Literal>::text(v),
{
    v.to_string()
}

impl Literal for u32 {
    open spec fn literal(s: Seq<char>) -> Option<u32> {
        match unsigned_literal(s) {
            Some(n) => if 0 <= n && n <= u32::MAX {
                Some(n as u32)
            } else {
                None
            },
            None => None,
        }
    }

    open spec fn error_text(s: Seq<char>) -> Seq<char> {
        u32_parse_error(s)
    }

    open spec fn text(v: u32) -> Seq<char> {
        decimal(v as int)
    }

    fn from_literal(s: &str) -> (r: Result<u32, String>) {
        read_u32(s)
    }

    fn to_text(&self) -> (r: String) {
        write_u32(*self)
    }

    proof fn lemma_text_reads_back(v: u32) {
        lemma_decimal(v as int);
    }
}

impl ConfigValue for u32 {
    open spec fn parsed(s: Seq<char>) -> Option<u32> {
        scalar_parsed::<u32>(s)
    }

    open spec fn parse_error(s: Seq<char>) -> Seq<char> {
        scalar_error::<u32>(s)
    }

    open spec fn config_text(v: u32) -> Seq<char> {
        <u32 as Literal>::text(v)
    }

    fn parse(key: &str, value_str: &str) -> (r: Result<u32, ConfigError>) {
        parse_config_value::<u32>(key, value_str)
    }

    fn to_config_string(&self) -> (r: String) {
        self.to_text()
    }
}

/// The description of the failure of `u64::from_str` on `s`.
pub uninterp spec fn u64_parse_error(s: Seq<char>) -> Seq<char>;

/// Relies on `u64::from_str`: an optional `+` and decimal digits, whose value fits in `u64`.
#[verifier::external_body]
fn read_u64(s: &str) -> (r: Result<u64, String>)
    ensures
        match r {
            Ok(v) => <u64 as Literal>::literal(s@) == Some(v),
            Err(m) => <u64 as Literal>::literal(s@) is None && m@ == u64_parse_error(s@),
        },
{
    s.parse::<u64>().map_err(|e| e.to_string())
}

/// Relies on `u64`'s `Display`: decimal digits, with `-` before a negative value.
#[verifier::external_body]
fn write_u64(v: u64) -> (r: String)
    ensures
        r@ == <u64 as Literal>::text(v),
{
    v.to_string()
}

impl Literal for u64 {
    open spec fn literal(s: Seq<char>) -> Option<u64> {
        match unsigned_literal(s) {
            Some(n) => if 0 <= n && n <= u64::MAX {
                Some(n as u64)
            } else {
                None
            },
            None => None,
        }
    }

    open spec fn error_text(s: Seq<char>) -> Seq<char> {
        u64_parse_error(s)
    }

    open spec fn text(v: u64) -> Seq<char> {
        decimal(v as int)
    }

    fn from_literal(s: &str) -> (r: Result<u64, String>) {
        read_u64(s)
    }

    fn to_text(&self) -> (r: String) {
        write_u64(*self)
    }

    proof fn lemma_text_reads_back(v: u64) {
        lemma_decimal(v as int);
    }
}

impl ConfigValue for u64 {
    open spec fn parsed(s: Seq<char>) -> Option<u64> {
        scalar_parsed::<u64>(s)
    }

    open spec fn parse_error(s: Seq<char>) -> Seq<char> {
        scalar_error::<u64>(s)
    }

    open spec fn config_text(v: u64) -> Seq<char> {
        <u64 as Literal>::text(v)
    }

    fn parse(key: &str, value_str: &str) -> (r: Result<u64, ConfigError>) {
        parse_config_value::<u64>(key, value_str)
    }

    fn to_config_string(&self) -> (r: String) {
        self.to_text()
    }
}

/// The description of the failure of `u128::from_str` on `s`.
pub uninterp spec fn u128_parse_error(s: Seq<char>) -> Seq<char>;

/// Relies on `u128::from_str`: an optional `+` and decimal digits, whose value fits in `u128`.
#[verifier::external_body]
fn read_u128(s: &str) -> (r: Result<u128, String>)
    ensures
        match r {
            Ok(v) => <u128 as Literal>::literal(s@) == Some(v),
            Err(m) => <u128 as Literal>::literal(s@) is None && m@ == u128_parse_error(s@),
        },
{
    s.parse::<u128>().map_err(|e| e.to_string())
}

/// Relies on `u128`'s `Display`: decimal digits, with `-` before a negative value.
#[verifier::external_body]
fn write_u128(v: u128) -> (r: String)
    ensures
        r@ == <u128 as Literal>::text(v),
{
    v.to_string()
}

impl Literal for u128 {
    open spec fn literal(s: Seq<char>) -> Option<u128> {
        match unsigned_literal(s) {
            Some(n) => if 0 <= n && n <= u128::MAX {
                Some(n as u128)
            } else {
                None
            },
            None => None,
        }
    }

    open spec fn error_text(s: Seq<char>) -> Seq<char> {
        u128_parse_error(s)
    }

    open spec fn text(v: u128) -> Seq<char> {
        decimal(v as int)
    }

    fn from_literal(s: &str) -> (r: Result<u128, String>) {
        read_u128(s)
    }

    fn to_text(&self) -> (r: String) {
        write_u128(*self)
    }

    proof fn lemma_text_reads_back(v: u128) {
        lemma_decimal(v as int);
    }
}

impl ConfigValue for u128 {
    open spec fn parsed(s: Seq<char>) -> Option<u128> {
        scalar_parsed::<u128>(s)
    }

    open spec fn parse_error(s: Seq<char>) -> Seq<char> {
        scalar_error::<u128>(s)
    }

    open spec fn config_text(v: u128) -> Seq<char> {
        <u128 as Literal>::text(v)
    }

    fn parse(key: &str, value_str: &str) -> (r: Result<u128, ConfigError>) {
        parse_config_value::<u128>(key, value_str)
    }

    fn to_config_string(&self) -> (r: String) {
        self.to_text()
    }
}

/// The description of the failure of `usize::from_str` on `s`.
pub uninterp spec fn usize_parse_error(s: Seq<char>) -> Seq<char>;

/// Relies on `usize::from_str`: an optional `+` and decimal digits, whose value fits in `usize`.
#[verifier::external_body]
fn read_usize(s: &str) -> (r: Result<usize, String>)
    ensures
        match r {
            Ok(v) => <usize as Literal>::literal(s@) == Some(v),
            Err(m) => <usize as Literal>::literal(s@) is None && m@ == usize_parse_error(s@),
        },
{
    s.parse::<usize>().map_err(|e| e.to_string())
}

/// Relies on `usize`'s `Display`: decimal digits, with `-` before a negative value.
#[verifier::external_body]
fn write_usize(v: usize) -> (r: String)
    ensures
        r@ == <usize as Literal>::text(v),
{
    v.to_string()
}

impl Literal for usize {
    open spec fn literal(s: Seq<char>) -> Option<usize> {
        match unsigned_literal(s) {
            Some(n) => if 0 <= n && n <= usize::MAX {
                Some(n as usize)
            } else {
                None
            },
            None => None,
        }
    }

    open spec fn error_text(s: Seq<char>) -> Seq<char> {
        usize_parse_error(s)
    }

    open spec fn text(v: usize) -> Seq<char> {
        decimal(v as int)
    }

    fn from_literal(s: &str) -> (r: Result<usize, String>) {
        read_usize(s)
    }

    fn to_text(&self) -> (r: String) {
        write_usize(*self)
    }

    proof fn lemma_text_reads_back(v: usize) {
        lemma_decimal(v as int);
    }
}

impl ConfigValue for usize {
    open spec fn parsed(s: Seq<char>) -> Option<usize> {
        scalar_parsed::<usize>(s)
    }

    open spec fn parse_error(s: Seq<char>) -> Seq<char> {
        scalar_error::<usize>(s)
    }

    open spec fn config_text(v: usize) -> Seq<char> {
        <usize as Literal>::text(v)
    }

    fn parse(key: &str, value_str: &str) -> (r: Result<usize, ConfigError>) {
        parse_config_value::<usize>(key, value_str)
    }

    fn to_config_string(&self) -> (r: String) {
        self.to_text()
    }
}

/// The description of the failure of `i8::from_str` on `s`.
pub uninterp spec fn i8_parse_error(s: Seq<char>) -> Seq<char>;

/// Relies on `i8::from_str`: an optional `+` or `-` and decimal digits, whose value fits in `i8`.
#[verifier::external_body]
fn read_i8(s: &str) -> (r: Result<i8, String>)
    ensures
        match r {
            Ok(v) => <i8 as Literal>::literal(s@) == Some(v),
            Err(m) => <i8 as Literal>::literal(s@) is None && m@ == i8_parse_error(s@),
        },
{
    s.parse::<i8>().map_err(|e| e.to_string())
}

/// Relies on `i8`'s `Display`: decimal digits, with `-` before a negative value.
#[verifier::external_body]
fn write_i8(v: i8) -> (r: String)
    ensures
        r@ == <i8 as Literal>::text(v),
{
    v.to_string()
}

impl Literal for i8 {
    open spec fn literal(s: Seq<char>) -> Option<i8> {
        match signed_literal(s) {
            Some(n) => if i8::MIN <= n && n <= i8::MAX {
                Some(n as i8)
            } else {
                None
            },
            None => None,
        }
    }

    open spec fn error_text(s: Seq<char>) -> Seq<char> {
        i8_parse_error(s)
    }

    open spec fn text(v: i8) -> Seq<char> {
        decimal(v as int)
    }

    fn from_literal(s: &str) -> (r: Result<i8, String>) {
        read_i8(s)
    }

    fn to_text(&self) -> (r: String) {
        write_i8(*self)
    }

    proof fn lemma_text_reads_back(v: i8) {
        lemma_decimal(v as int);
    }
}

impl ConfigValue for i8 {
    open spec fn parsed(s: Seq<char>) -> Option<i8> {
        scalar_parsed::<i8>(s)
    }

    open spec fn parse_error(s: Seq<char>) -> Seq<char> {
        scalar_error::<i8>(s)
    }

    open spec fn config_text(v: i8) -> Seq<char> {
        <i8 as Literal>::text(v)
    }

    fn parse(key: &str, value_str: &str) -> (r: Result<i8, ConfigError>) {
        parse_config_value::<i8>(key, value_str)
    }

    fn to_config_string(&self) -> (r: String) {
        self.to_text()
    }
}

/// The description of the failure of `i16::from_str` on `s`.
pub uninterp spec fn i16_parse_error(s: Seq<char>) -> Seq<char>;

/// Relies on `i16::from_str`: an optional `+` or `-` and decimal digits, whose value fits in `i16`.
#[verifier::external_body]
fn read_i16(s: &str) -> (r: Result<i16, String>)
    ensures
        match r {
            Ok(v) => <i16 as Literal>::literal(s@) == Some(v),
            Err(m) => <i16 as Literal>::literal(s@) is None && m@ == i16_parse_error(s@),
        },
{
    s.parse::<i16>().map_err(|e| e.to_string())
}

/// Relies on `i16`'s `Display`: decimal digits, with `-` before a negative value.
#[verifier::external_body]
fn write_i16(v: i16) -> (r: String)
    ensures
        r@ == <i16 as Literal>::text(v),
{
    v.to_string()
}

impl Literal for i16 {
    open spec fn literal(s: Seq<char>) -> Option<i16> {
        match signed_literal(s) {
            Some(n) => if i16::MIN <= n && n <= i16::MAX {
                Some(n as i16)
            } else {
                None
            },
            None => None,
        }
    }

    open spec fn error_text(s: Seq<char>) -> Seq<char> {
        i16_parse_error(s)
    }

    open spec fn text(v: i16) -> Seq<char> {
        decimal(v as int)
    }

    fn from_literal(s: &str) -> (r: Result<i16, String>) {
        read_i16(s)
    }

    fn to_text(&self) -> (r: String) {
        write_i16(*self)
    }

    proof fn lemma_text_reads_back(v: i16) {
        lemma_decimal(v as int);
    }
}

impl ConfigValue for i16 {
    open spec fn parsed(s: Seq<char>) -> Option<i16> {
        scalar_parsed::<i16>(s)
    }

    open spec fn parse_error(s: Seq<char>) -> Seq<char> {
        scalar_error::<i16>(s)
    }

    open spec fn config_text(v: i16) -> Seq<char> {
        <i16 as Literal>::text(v)
    }

    fn parse(key: &str, value_str: &str) -> (r: Result<i16, ConfigError>) {
        parse_config_value::<i16>(key, value_str)
    }

    fn to_config_string(&self) -> (r: String) {
        self.to_text()
    }
}

/// The description of the failure of `i32::from_str` on `s`.
pub uninterp spec fn i32_parse_error(s: Seq<char>) -> Seq<char>;

/// Relies on `i32::from_str`: an optional `+` or `-` and decimal digits, whose value fits in `i32`.
#[verifier::external_body]
fn read_i32(s: &str) -> (r: Result<i32, String>)
    ensures
        match r {
            Ok(v) => <i32 as Literal>::literal(s@) == Some(v),
            Err(m) => <i32 as Literal>::literal(s@) is None && m@ == i32_parse_error(s@),
        },
{
    s.parse::<i32>().map_err(|e| e.to_string())
}

/// Relies on `i32`'s `Display`: decimal digits, with `-` before a negative value.
#[verifier::external_body]
fn write_i32(v: i32) -> (r: String)
    ensures
        r@ == <i32 as Literal>::text(v),
{
    v.to_string()
}

impl Literal for i32 {
    open spec fn literal(s: Seq<char>) -> Option<i32> {
        match signed_literal(s) {
            Some(n) => if i32::MIN <= n && n <= i32::MAX {
                Some(n as i32)
            } else {
                None
            },
            None => None,
        }
    }

    open spec fn error_text(s: Seq<char>) -> Seq<char> {
        i32_parse_error(s)
    }

    open spec fn text(v: i32) -> Seq<char> {
        decimal(v as int)
    }

    fn from_literal(s: &str) -> (r: Result<i32, String>) {
        read_i32(s)
    }

    fn to_text(&self) -> (r: String) {
        write_i32(*self)
    }

    proof fn lemma_text_reads_back(v: i32) {
        lemma_decimal(v as int);
    }
}

impl ConfigValue for i32 {
    open spec fn parsed(s: Seq<char>) -> Option<i32> {
        scalar_parsed::<i32>(s)
    }

    open spec fn parse_error(s: Seq<char>) -> Seq<char> {
        scalar_error::<i32>(s)
    }

    open spec fn config_text(v: i32) -> Seq<char> {
        <i32 as Literal>::text(v)
    }

    fn parse(key: &str, value_str: &str) -> (r: Result<i32, ConfigError>) {
        parse_config_value::<i32>(key, value_str)
    }

    fn to_config_string(&self) -> (r: String) {
        self.to_text()
    }
}

/// The description of the failure of `i64::from_str` on `s`.
pub uninterp spec fn i64_parse_error(s: Seq<char>) -> Seq<char>;

/// Relies on `i64::from_str`: an optional `+` or `-` and decimal digits, whose value fits in `i64`.
#[verifier::external_body]
fn read_i64(s: &str) -> (r: Result<i64, String>)
    ensures
        match r {
            Ok(v) => <i64 as Literal>::literal(s@) == Some(v),
            Err(m) => <i64 as Literal>::literal(s@) is None && m@ == i64_parse_error(s@),
        },
{
    s.parse::<i64>().map_err(|e| e.to_string())
}

/// Relies on `i64`'s `Display`: decimal digits, with `-` before a negative value.
#[verifier::external_body]
fn write_i64(v: i64) -> (r: String)
    ensures
        r@ == <i64 as Literal>::text(v),
{
    v.to_string()
}

impl Literal for i64 {
    open spec fn literal(s: Seq<char>) -> Option<i64> {
        match signed_literal(s) {
            Some(n) => if i64::MIN <= n && n <= i64::MAX {
                Some(n as i64)
            } else {
                None
            },
            None => None,
        }
    }

    open spec fn error_text(s: Seq<char>) -> Seq<char> {
        i64_parse_error(s)
    }

    open spec fn text(v: i64) -> Seq<char> {
        decimal(v as int)
    }

    fn from_literal(s: &str) -> (r: Result<i64, String>) {
        read_i64(s)
    }

    fn to_text(&self) -> (r: String) {
        write_i64(*self)
    }

    proof fn lemma_text_reads_back(v: i64) {
        lemma_decimal(v as int);
    }
}

impl ConfigValue for i64 {
    open spec fn parsed(s: Seq<char>) -> Option<i64> {
        scalar_parsed::<i64>(s)
    }

    open spec fn parse_error(s: Seq<char>) -> Seq<char> {
        scalar_error::<i64>(s)
    }

    open spec fn config_text(v: i64) -> Seq<char> {
        <i64 as Literal>::text(v)
    }

    fn parse(key: &str, value_str: &str) -> (r: Result<i64, ConfigError>) {
        parse_config_value::<i64>(key, value_str)
    }

    fn to_config_string(&self) -> (r: String) {
        self.to_text()
    }
}

/// The description of the failure of `i128::from_str` on `s`.
pub uninterp spec fn i128_parse_error(s: Seq<char>) -> Seq<char>;

/// Relies on `i128::from_str`: an optional `+` or `-` and decimal digits, whose value fits in `i128`.
#[verifier::external_body]
fn read_i128(s: &str) -> (r: Result<i128, String>)
    ensures
        match r {
            Ok(v) => <i128 as Literal>::literal(s@) == Some(v),
            Err(m) => <i128 as Literal>::literal(s@) is None && m@ == i128_parse_error(s@),
        },
{
    s.parse::<i128>().map_err(|e| e.to_string())
}

/// Relies on `i128`'s `Display`: decimal digits, with `-` before a negative value.
#[verifier::external_body]
fn write_i128(v: i128) -> (r: String)
    ensures
        r@ == <i128 as Literal>::text(v),
{
    v.to_string()
}

impl Literal for i128 {
    open spec fn literal(s: Seq<char>) -> Option<i128> {
        match signed_literal(s) {
            Some(n) => if i128::MIN <= n && n <= i128::MAX {
                Some(n as i128)
            } else {
                None
            },
            None => None,
        }
    }

    open spec fn error_text(s: Seq<char>) -> Seq<char> {
        i128_parse_error(s)
    }

    open spec fn text(v: i128) -> Seq<char> {
        decimal(v as int)
    }

    fn from_literal(s: &str) -> (r: Result<i128, String>) {
        read_i128(s)
    }

    fn to_text(&self) -> (r: String) {
        write_i128(*self)
    }

    proof fn lemma_text_reads_back(v: i128) {
        lemma_decimal(v as int);
    }
}

impl ConfigValue for i128 {
    open spec fn parsed(s: Seq<char>) -> Option<i128> {
        scalar_parsed::<i128>(s)
    }

    open spec fn parse_error(s: Seq<char>) -> Seq<char> {
        scalar_error::<i128>(s)
    }

    open spec fn config_text(v: i128) -> Seq<char> {
        <i128 as Literal>::text(v)
    }

    fn parse(key: &str, value_str: &str) -> (r: Result<i128, ConfigError>) {
        parse_config_value::<i128>(key, value_str)
    }

    fn to_config_string(&self) -> (r: String) {
        self.to_text()
    }
}

/// The description of the failure of `isize::from_str` on `s`.
pub uninterp spec fn isize_parse_error(s: Seq<char>) -> Seq<char>;

/// Relies on `isize::from_str`: an optional `+` or `-` and decimal digits, whose value fits in `isize`.
#[verifier::external_body]
fn read_isize(s: &str) -> (r: Result<isize, String>)
    ensures
        match r {
            Ok(v) => <isize as Literal>::literal(s@) == Some(v),
            Err(m) => <isize as Literal>::literal(s@) is None && m@ == isize_parse_error(s@),
        },
{
    s.parse::<isize>().map_err(|e| e.to_string())
}

/// Relies on `isize`'s `Display`: decimal digits, with `-` before a negative value.
#[verifier::external_body]
fn write_isize(v: isize) -> (r: String)
    ensures
        r@ == <isize as Literal>::text(v),
{
    v.to_string()
}

impl Literal for isize {
    open spec fn literal(s: Seq<char>) -> Option<isize> {
        match signed_literal(s) {
            Some(n) => if isize::MIN <= n && n <= isize::MAX {
                Some(n as isize)
            } else {
                None
            },
            None => None,
        }
    }

    open spec fn error_text(s: Seq<char>) -> Seq<char> {
        isize_parse_error(s)
    }

    open spec fn text(v: isize) -> Seq<char> {
        decimal(v as int)
    }

    fn from_literal(s: &str) -> (r: Result<isize, String>) {
        read_isize(s)
    }

    fn to_text(&self) -> (r: String) {
        write_isize(*self)
    }

    proof fn lemma_text_reads_back(v: isize) {
        lemma_decimal(v as int);
    }
}

impl ConfigValue for isize {
    open spec fn parsed(s: Seq<char>) -> Option<isize> {
        scalar_parsed::<isize>(s)
    }

    open spec fn parse_error(s: Seq<char>) -> Seq<char> {
        scalar_error::<isize>(s)
    }

    open spec fn config_text(v: isize) -> Seq<char> {
        <isize as Literal>::text(v)
    }

    fn parse(key: &str, value_str: &str) -> (r: Result<isize, ConfigError>) {
        parse_config_value::<isize>(key, value_str)
    }

    fn to_config_string(&self) -> (r: String) {
        self.to_text()
    }
}

} // verus!
