//! The closed set of encryption-method tokens.

use crate::text::same_text;
use vstd::prelude::*;

verus! {

/// An encryption method. Each variant has exactly one text token.
#[derive(PartialEq, Eq, Structural, Hash, Clone, Copy, Debug)]
pub enum Method {
    Rc4Md5,
    Aes128Gcm,
    Aes192Gcm,
    Aes256Gcm,
    Aes128Cfb,
    Aes192Cfb,
    Aes256Cfb,
    Aes128Ctr,
    Aes192Ctr,
    Aes256Ctr,
    Camellia128Cfb,
    Camellia192Cfb,
    Camellia256Cfb,
    BfCfb,
    Chacha20IetfPoly1305,
    Salsa20,
    Chacha20,
    Chacha20Ietf,
    Xchacha20IetfPoly130,
}

/// Why a token was not accepted as a method.
#[derive(PartialEq, Eq, Structural, Hash, Clone, Copy, Debug)]
pub enum MethodParseError {
    UnknownMethod,
}

impl Method {
    /// The token of this method, as a sequence of characters.
    pub open spec fn token(self) -> Seq<char> {
        match self {
            Method::Rc4Md5 => "rc4-md5"@,
            Method::Aes128Gcm => "aes-128-gcm"@,
            Method::Aes192Gcm => "aes-192-gcm"@,
            Method::Aes256Gcm => "aes-256-gcm"@,
            Method::Aes128Cfb => "aes-128-cfb"@,
            Method::Aes192Cfb => "aes-192-cfb"@,
            Method::Aes256Cfb => "aes-256-cfb"@,
            Method::Aes128Ctr => "aes-128-ctr"@,
            Method::Aes192Ctr => "aes-192-ctr"@,
            Method::Aes256Ctr => "aes-256-ctr"@,
            Method::Camellia128Cfb => "camellia-128-cfb"@,
            Method::Camellia192Cfb => "camellia-192-cfb"@,
            Method::Camellia256Cfb => "camellia-256-cfb"@,
            Method::BfCfb => "bf-cfb"@,
            Method::Chacha20IetfPoly1305 => "chacha20-ietf-poly1305"@,
            Method::Salsa20 => "salsa20"@,
            Method::Chacha20 => "chacha20"@,
            Method::Chacha20Ietf => "chacha20-ietf"@,
            Method::Xchacha20IetfPoly130 => "xchacha20-ietf-poly1305"@,
        }
    }

    /// The method that a token names, if any. The match is exact: no
    /// trimming and no case folding.
    pub open spec fn of_token(t: Seq<char>) -> Option<Method> {
        if t == "rc4-md5"@ {
            Some(Method::Rc4Md5)
        } else if t == "aes-128-gcm"@ {
            Some(Method::Aes128Gcm)
        } else if t == "aes-192-gcm"@ {
            Some(Method::Aes192Gcm)
        } else if t == "aes-256-gcm"@ {
            Some(Method::Aes256Gcm)
        } else if t == "aes-128-cfb"@ {
            Some(Method::Aes128Cfb)
        } else if t == "aes-192-cfb"@ {
            Some(Method::Aes192Cfb)
        } else if t == "aes-256-cfb"@ {
            Some(Method::Aes256Cfb)
        } else if t == "aes-128-ctr"@ {
            Some(Method::Aes128Ctr)
        } else if t == "aes-192-ctr"@ {
            Some(Method::Aes192Ctr)
        } else if t == "aes-256-ctr"@ {
            Some(Method::Aes256Ctr)
        } else if t == "camellia-128-cfb"@ {
            Some(Method::Camellia128Cfb)
        } else if t == "camellia-192-cfb"@ {
            Some(Method::Camellia192Cfb)
        } else if t == "camellia-256-cfb"@ {
            Some(Method::Camellia256Cfb)
        } else if t == "bf-cfb"@ {
            Some(Method::BfCfb)
        } else if t == "chacha20-ietf-poly1305"@ {
            Some(Method::Chacha20IetfPoly1305)
        } else if t == "salsa20"@ {
            Some(Method::Salsa20)
        } else if t == "chacha20"@ {
            Some(Method::Chacha20)
        } else if t == "chacha20-ietf"@ {
            Some(Method::Chacha20Ietf)
        } else if t == "xchacha20-ietf-poly1305"@ {
            Some(Method::Xchacha20IetfPoly130)
        } else {
            None
        }
    }

    /// What parsing the text `t` gives: the method it names, or the one
    /// error.
    pub open spec fn parsed(t: Seq<char>) -> Result<Method, MethodParseError> {
        match Method::of_token(t) {
            Some(m) => Ok(m),
            None => Err(MethodParseError::UnknownMethod),
        }
    }

    /// The token of this method.
    pub fn as_str(&self) -> (r: &'static str)
        ensures
            r@ == self.token(),
    {
        match self {
            Method::Rc4Md5 => "rc4-md5",
            Method::Aes128Gcm => "aes-128-gcm",
            Method::Aes192Gcm => "aes-192-gcm",
            Method::Aes256Gcm => "aes-256-gcm",
            Method::Aes128Cfb => "aes-128-cfb",
            Method::Aes192Cfb => "aes-192-cfb",
            Method::Aes256Cfb => "aes-256-cfb",
            Method::Aes128Ctr => "aes-128-ctr",
            Method::Aes192Ctr => "aes-192-ctr",
            Method::Aes256Ctr => "aes-256-ctr",
            Method::Camellia128Cfb => "camellia-128-cfb",
            Method::Camellia192Cfb => "camellia-192-cfb",
            Method::Camellia256Cfb => "camellia-256-cfb",
            Method::BfCfb => "bf-cfb",
            Method::Chacha20IetfPoly1305 => "chacha20-ietf-poly1305",
            Method::Salsa20 => "salsa20",
            Method::Chacha20 => "chacha20",
            Method::Chacha20Ietf => "chacha20-ietf",
            Method::Xchacha20IetfPoly130 => "xchacha20-ietf-poly1305",
        }
    }

    /// The method that `s` names. Any text that is not one of the tokens
    /// is refused.
    pub fn parse(s: &str) -> (r: Result<Method, MethodParseError>)
        ensures
            r == Method::parsed(s@),
    {
        if same_text(s, "rc4-md5") {
            Ok(Method::Rc4Md5)
        } else if same_text(s, "aes-128-gcm") {
            Ok(Method::Aes128Gcm)
        } else if same_text(s, "aes-192-gcm") {
            Ok(Method::Aes192Gcm)
        } else if same_text(s, "aes-256-gcm") {
            Ok(Method::Aes256Gcm)
        } else if same_text(s, "aes-128-cfb") {
            Ok(Method::Aes128Cfb)
        } else if same_text(s, "aes-192-cfb") {
            Ok(Method::Aes192Cfb)
        } else if same_text(s, "aes-256-cfb") {
            Ok(Method::Aes256Cfb)
        } else if same_text(s, "aes-128-ctr") {
            Ok(Method::Aes128Ctr)
        } else if same_text(s, "aes-192-ctr") {
            Ok(Method::Aes192Ctr)
        } else if same_text(s, "aes-256-ctr") {
            Ok(Method::Aes256Ctr)
        } else if same_text(s, "camellia-128-cfb") {
            Ok(Method::Camellia128Cfb)
        } else if same_text(s, "camellia-192-cfb") {
            Ok(Method::Camellia192Cfb)
        } else if same_text(s, "camellia-256-cfb") {
            Ok(Method::Camellia256Cfb)
        } else if same_text(s, "bf-cfb") {
            Ok(Method::BfCfb)
        } else if same_text(s, "chacha20-ietf-poly1305") {
            Ok(Method::Chacha20IetfPoly1305)
        } else if same_text(s, "salsa20") {
            Ok(Method::Salsa20)
        } else if same_text(s, "chacha20") {
            Ok(Method::Chacha20)
        } else if same_text(s, "chacha20-ietf") {
            Ok(Method::Chacha20Ietf)
        } else if same_text(s, "xchacha20-ietf-poly1305") {
            Ok(Method::Xchacha20IetfPoly130)
        } else {
            Err(MethodParseError::UnknownMethod)
        }
    }
}

impl core::str::FromStr for Method {
    type Err = MethodParseError;

    /// The method that `s` names, as `Method::parse` gives it.
    fn from_str(s: &str) -> (r: Result<Self, Self::Err>)
        ensures
            r == Method::parsed(s@),
    {
        Method::parse(s)
    }
}

impl<'a> vstd::std_specs::convert::TryFromSpecImpl<&'a str> for Method {
    open spec fn obeys_try_from_spec() -> bool {
        true
    }

    open spec fn try_from_spec(value: &'a str) -> Result<Self, Self::Error> {
        Method::parsed(value@)
    }
}

impl vstd::std_specs::convert::TryFromSpecImpl<String> for Method {
    open spec fn obeys_try_from_spec() -> bool {
        true
    }

    open spec fn try_from_spec(value: String) -> Result<Self, Self::Error> {
        Method::parsed(value@)
    }
}

impl<'a> TryFrom<&'a str> for Method {
    type Error = MethodParseError;

    fn try_from(value: &'a str) -> (r: Result<Self, Self::Error>) {
        Method::parse(value)
    }
}

impl TryFrom<String> for Method {
    type Error = MethodParseError;

    fn try_from(value: String) -> (r: Result<Self, Self::Error>) {
        Method::parse(value.as_str())
    }
}

/// No two methods share a token.
pub proof fn lemma_tokens_distinct(a: Method, b: Method)
    requires
        a != b,
    ensures
        a.token() != b.token(),
{
    reveal_strlit("rc4-md5");
    reveal_strlit("aes-128-gcm");
    reveal_strlit("aes-192-gcm");
    reveal_strlit("aes-256-gcm");
    reveal_strlit("aes-128-cfb");
    reveal_strlit("aes-192-cfb");
    reveal_strlit("aes-256-cfb");
    reveal_strlit("aes-128-ctr");
    reveal_strlit("aes-192-ctr");
    reveal_strlit("aes-256-ctr");
    reveal_strlit("camellia-128-cfb");
    reveal_strlit("camellia-192-cfb");
    reveal_strlit("camellia-256-cfb");
    reveal_strlit("bf-cfb");
    reveal_strlit("chacha20-ietf-poly1305");
    reveal_strlit("salsa20");
    reveal_strlit("chacha20");
    reveal_strlit("chacha20-ietf");
    reveal_strlit("xchacha20-ietf-poly1305");
    let s = a.token();
    let t = b.token();
    assert(s.len() != t.len() || s[0] != t[0] || s[5] != t[5] || (s.len() > 10 && (s[9] != t[9]
        || s[10] != t[10])));
}

/// A method's token names that method, and a text names a method only if
/// it is that method's token.
pub proof fn lemma_token_round_trip(m: Method, t: Seq<char>)
    ensures
        Method::of_token(m.token()) == Some(m),
        Method::of_token(t) == Some(m) <==> t == m.token(),
        Method::of_token(t) is None <==> forall|n: Method| n.token() != t,
{
    assert forall|a: Method, b: Method| a != b implies a.token() != b.token() by {
        lemma_tokens_distinct(a, b);
    }
    assert(Method::Rc4Md5.token() == "rc4-md5"@);
    assert(Method::Aes128Gcm.token() == "aes-128-gcm"@);
    assert(Method::Aes192Gcm.token() == "aes-192-gcm"@);
    assert(Method::Aes256Gcm.token() == "aes-256-gcm"@);
    assert(Method::Aes128Cfb.token() == "aes-128-cfb"@);
    assert(Method::Aes192Cfb.token() == "aes-192-cfb"@);
    assert(Method::Aes256Cfb.token() == "aes-256-cfb"@);
    assert(Method::Aes128Ctr.token() == "aes-128-ctr"@);
    assert(Method::Aes192Ctr.token() == "aes-192-ctr"@);
    assert(Method::Aes256Ctr.token() == "aes-256-ctr"@);
    assert(Method::Camellia128Cfb.token() == "camellia-128-cfb"@);
    assert(Method::Camellia192Cfb.token() == "camellia-192-cfb"@);
    assert(Method::Camellia256Cfb.token() == "camellia-256-cfb"@);
    assert(Method::BfCfb.token() == "bf-cfb"@);
    assert(Method::Chacha20IetfPoly1305.token() == "chacha20-ietf-poly1305"@);
    assert(Method::Salsa20.token() == "salsa20"@);
    assert(Method::Chacha20.token() == "chacha20"@);
    assert(Method::Chacha20Ietf.token() == "chacha20-ietf"@);
    assert(Method::Xchacha20IetfPoly130.token() == "xchacha20-ietf-poly1305"@);
}

/// No token holds a colon.
pub proof fn lemma_token_has_no_colon(m: Method)
    ensures
        forall|i: int| 0 <= i < m.token().len() ==> m.token()[i] != ':',
        m.token().len() > 0,
{
    reveal_strlit("rc4-md5");
    reveal_strlit("aes-128-gcm");
    reveal_strlit("aes-192-gcm");
    reveal_strlit("aes-256-gcm");
    reveal_strlit("aes-128-cfb");
    reveal_strlit("aes-192-cfb");
    reveal_strlit("aes-256-cfb");
    reveal_strlit("aes-128-ctr");
    reveal_strlit("aes-192-ctr");
    reveal_strlit("aes-256-ctr");
    reveal_strlit("camellia-128-cfb");
    reveal_strlit("camellia-192-cfb");
    reveal_strlit("camellia-256-cfb");
    reveal_strlit("bf-cfb");
    reveal_strlit("chacha20-ietf-poly1305");
    reveal_strlit("salsa20");
    reveal_strlit("chacha20");
    reveal_strlit("chacha20-ietf");
    reveal_strlit("xchacha20-ietf-poly1305");
}


} // verus!
