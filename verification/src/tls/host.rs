//! Exact hostnames that a loopback route may be set for.

use super::domain::{
    canonical_name, law_canonical_alphabet, law_canonical_is_fixed, law_case_is_ignored,
    law_root_dot_is_ignored, law_well_formed_names_are_accepted, lower_case, DomainName, DomainNameError,
};
use vstd::prelude::*;

verus! {

/// A validated exact hostname for a host-loopback TLS route.
#[derive(Debug, PartialEq, Eq, PartialOrd, Ord, Hash)]
pub struct TlsLoopbackHost(DomainName);

/// Errors reported when a TLS loopback route host is not exact.
#[derive(Debug, Clone, Copy, PartialEq, Eq, Structural)]
pub enum TlsLoopbackHostError {
    /// The hostname is not a valid DNS name.
    InvalidDomain(DomainNameError),
    /// Wildcards would make a loopback route broader than one exact hostname.
    Wildcard,
}

/// The canonical hostname that a text spells, or why it spells no exact host.
pub open spec fn exact_host(text: Seq<char>) -> Result<Seq<char>, TlsLoopbackHostError> {
    if text.contains('*') {
        Err(TlsLoopbackHostError::Wildcard)
    } else {
        match canonical_name(text) {
            Ok(name) => Ok(name),
            Err(error) => Err(TlsLoopbackHostError::InvalidDomain(error)),
        }
    }
}

/// A canonical hostname, as every host holds it.
pub open spec fn is_exact_host(name: Seq<char>) -> bool {
    exact_host(name) == Ok::<Seq<char>, TlsLoopbackHostError>(name)
}

impl TlsLoopbackHostError {
    /// The message that tells a user what is wrong.
    pub open spec fn text(self) -> Seq<char> {
        match self {
            TlsLoopbackHostError::InvalidDomain(error) => error.text(),
            TlsLoopbackHostError::Wildcard =>
                "TLS loopback route host must not contain a wildcard"@,
        }
    }

    /// Return the message that tells a user what is wrong.
    pub fn message(&self) -> (message: &'static str)
        ensures
            message@ == self.text(),
            message@ == match self {
                TlsLoopbackHostError::InvalidDomain(DomainNameError::Empty) =>
                    "domain name must hold a label"@,
                TlsLoopbackHostError::InvalidDomain(DomainNameError::InvalidCharacter) =>
                    "domain name holds an invalid character"@,
                TlsLoopbackHostError::InvalidDomain(DomainNameError::TooLong) =>
                    "domain name is too long"@,
                TlsLoopbackHostError::InvalidDomain(DomainNameError::InvalidLabel) =>
                    "domain name holds an invalid label"@,
                TlsLoopbackHostError::Wildcard =>
                    "TLS loopback route host must not contain a wildcard"@,
            },
    {
        match self {
            TlsLoopbackHostError::InvalidDomain(error) => error.message(),
            TlsLoopbackHostError::Wildcard => "TLS loopback route host must not contain a wildcard",
        }
    }
}

impl From<DomainNameError> for TlsLoopbackHostError {
    /// A name that is not valid is no exact host.
    fn from(error: DomainNameError) -> (wrapped: Self)
        ensures
            wrapped == TlsLoopbackHostError::InvalidDomain(error),
    {
        TlsLoopbackHostError::InvalidDomain(error)
    }
}

impl vstd::std_specs::convert::FromSpecImpl<DomainNameError> for TlsLoopbackHostError {
    open spec fn obeys_from_spec() -> bool {
        true
    }

    open spec fn from_spec(error: DomainNameError) -> Self {
        TlsLoopbackHostError::InvalidDomain(error)
    }
}

impl TlsLoopbackHost {
    /// The canonical hostname.
    pub closed spec fn view(self) -> Seq<char> {
        self.0@
    }

    /// Return the canonical hostname.
    pub fn as_str(&self) -> (name: &str)
        ensures
            name@ == self@,
            is_exact_host(self@),
    {
        let name = self.0.as_str();
        proof {
            lemma_canonical_has_no_wildcard(self@);
        }
        name
    }
}

impl Clone for TlsLoopbackHost {
    fn clone(&self) -> (copy: Self)
        ensures
            copy@ == self@,
    {
        TlsLoopbackHost(self.0.clone())
    }
}

impl std::str::FromStr for TlsLoopbackHost {
    type Err = TlsLoopbackHostError;

    /// Parse an exact hostname in any spelling.
    fn from_str(raw: &str) -> (parsed: Result<Self, TlsLoopbackHostError>)
        ensures
            match parsed {
                Ok(host) => exact_host(raw@) == Ok::<Seq<char>, TlsLoopbackHostError>(host@),
                Err(error) => exact_host(raw@) == Err::<Seq<char>, TlsLoopbackHostError>(error),
            },
    {
        Self::try_from(raw.to_owned())
    }
}

impl TryFrom<String> for TlsLoopbackHost {
    type Error = TlsLoopbackHostError;

    /// Validate an exact hostname: a wildcard is refused before the name is parsed.
    fn try_from(raw: String) -> (parsed: Result<Self, TlsLoopbackHostError>)
        ensures
            match parsed {
                Ok(host) => exact_host(raw@) == Ok::<Seq<char>, TlsLoopbackHostError>(host@),
                Err(error) => exact_host(raw@) == Err::<Seq<char>, TlsLoopbackHostError>(error),
            },
    {
        if contains_char(raw.as_str(), '*') {
            return Err(TlsLoopbackHostError::Wildcard);
        }
        match <DomainName as std::str::FromStr>::from_str(raw.as_str()) {
            Ok(name) => Ok(TlsLoopbackHost(name)),
            Err(error) => Err(TlsLoopbackHostError::from(error)),
        }
    }
}

// Two texts with the same characters need not be one value, so what a conversion
// returns is stated over characters, on the conversion itself.
impl vstd::std_specs::convert::TryFromSpecImpl<String> for TlsLoopbackHost {
    open spec fn obeys_try_from_spec() -> bool {
        false
    }

    open spec fn try_from_spec(raw: String) -> Result<Self, TlsLoopbackHostError> {
        arbitrary()
    }
}

impl From<TlsLoopbackHost> for String {
    /// The canonical hostname as an owned text.
    fn from(host: TlsLoopbackHost) -> (name: Self)
        ensures
            name@ == host@,
            is_exact_host(host@),
    {
        proof {
            lemma_canonical_has_no_wildcard(host@);
        }
        host.0.into_string()
    }
}

impl vstd::std_specs::convert::FromSpecImpl<TlsLoopbackHost> for String {
    open spec fn obeys_from_spec() -> bool {
        false
    }

    open spec fn from_spec(host: TlsLoopbackHost) -> Self {
        arbitrary()
    }
}

/// Whether a text holds a character.
fn contains_char(text: &str, wanted: char) -> (found: bool)
    ensures
        found == text@.contains(wanted),
{
    for c in iter: text.chars()
        invariant
            iter.seq() == text@,
            forall|j: int| 0 <= j < iter.index() ==> text@[j] != wanted,
    {
        if c == wanted {
            assert(text@[iter.index() as int] == wanted);
            return true;
        }
    }
    false
}

proof fn lemma_canonical_has_no_wildcard(name: Seq<char>)
    ensures
        canonical_name(name) == Ok::<Seq<char>, DomainNameError>(name) ==> !name.contains('*'),
{
    if canonical_name(name) == Ok::<Seq<char>, DomainNameError>(name) {
        law_canonical_alphabet(name);
    }
}

/// Writing a host out and reading it back gives the same host.
pub proof fn law_host_round_trip(text: Seq<char>)
    requires
        exact_host(text) is Ok,
    ensures
        is_exact_host(exact_host(text)->Ok_0),
{
    law_canonical_is_fixed(text);
    lemma_canonical_has_no_wildcard(exact_host(text)->Ok_0);
}

/// No spelling of an exact host holds a wildcard, and neither does the host.
pub proof fn law_host_is_exact(text: Seq<char>)
    requires
        exact_host(text) is Ok,
    ensures
        !text.contains('*'),
        !exact_host(text)->Ok_0.contains('*'),
{
    law_canonical_is_fixed(text);
    lemma_canonical_has_no_wildcard(exact_host(text)->Ok_0);
}

/// Upper and lower case spell one host.
pub proof fn law_host_ignores_case(text: Seq<char>)
    ensures
        exact_host(lower_case(text)) == exact_host(text),
{
    let lower = lower_case(text);
    law_case_is_ignored(text);
    if text.contains('*') {
        let i = choose|i: int| 0 <= i < text.len() && text[i] == '*';
        assert(lower[i] == '*');
    }
    if lower.contains('*') {
        let i = choose|i: int| 0 <= i < lower.len() && lower[i] == '*';
        assert(text[i] == '*');
    }
}

/// With the dot of the root and without it, a text spells one host.
pub proof fn law_host_ignores_root_dot(text: Seq<char>)
    requires
        text.len() > 0,
        text.last() != '.',
    ensures
        exact_host(text.push('.')) == exact_host(text),
{
    let dotted = text.push('.');
    law_root_dot_is_ignored(text);
    if text.contains('*') {
        let i = choose|i: int| 0 <= i < text.len() && text[i] == '*';
        assert(dotted[i] == '*');
    }
    if dotted.contains('*') {
        let i = choose|i: int| 0 <= i < dotted.len() && dotted[i] == '*';
        assert(text[i] == '*');
    }
}

/// A text is refused as a wildcard exactly where an asterisk stands in it, be the rest a
/// name or not.
pub proof fn law_wildcards_are_refused(text: Seq<char>)
    ensures
        exact_host(text) == Err::<Seq<char>, TlsLoopbackHostError>(TlsLoopbackHostError::Wildcard)
            <==> exists|i: int| 0 <= i < text.len() && #[trigger] text[i] == '*',
{
    if text.contains('*') {
        let i = choose|i: int| 0 <= i < text.len() && text[i] == '*';
        assert(text[i] == '*');
    }
    if exists|i: int| 0 <= i < text.len() && #[trigger] text[i] == '*' {
        assert(text.contains('*'));
    }
}

/// The exact hosts are the DNS names: a text spells a host exactly where it spells a name,
/// and the host is that name.
pub proof fn law_hosts_are_names(text: Seq<char>, name: Seq<char>)
    ensures
        exact_host(text) == Ok::<Seq<char>, TlsLoopbackHostError>(name) <==> canonical_name(text)
            == Ok::<Seq<char>, DomainNameError>(name),
{
    if canonical_name(text) is Ok && text.contains('*') {
        let i = choose|i: int| 0 <= i < text.len() && text[i] == '*';
        let size = if text[text.len() - 1] == '.' {
            text.len() - 1
        } else {
            text.len() as int
        };
        law_well_formed_names_are_accepted(text, size);
        assert(text[i] == '*');
    }
}

/// A text without an asterisk that spells no name is refused with the fault of the name.
pub proof fn law_name_errors_are_kept(text: Seq<char>, error: DomainNameError)
    requires
        forall|i: int| 0 <= i < text.len() ==> #[trigger] text[i] != '*',
    ensures
        exact_host(text) == Err::<Seq<char>, TlsLoopbackHostError>(
            TlsLoopbackHostError::InvalidDomain(error),
        ) <==> canonical_name(text) == Err::<Seq<char>, DomainNameError>(error),
{
}

/// The hosts are what texts spell: whatever a text spells is a host, and a host spells
/// itself.
pub proof fn law_hosts_are_what_texts_spell(name: Seq<char>)
    ensures
        is_exact_host(name) <==> exists|text: Seq<char>| #[trigger]
            exact_host(text) == Ok::<Seq<char>, TlsLoopbackHostError>(name),
        is_exact_host(name) <==> exact_host(name) == Ok::<Seq<char>, TlsLoopbackHostError>(name),
{
    if exists|text: Seq<char>| #[trigger]
        exact_host(text) == Ok::<Seq<char>, TlsLoopbackHostError>(name) {
        let text = choose|text: Seq<char>| #[trigger]
            exact_host(text) == Ok::<Seq<char>, TlsLoopbackHostError>(name);
        law_host_round_trip(text);
    }
}

} // verus!
