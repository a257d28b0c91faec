use vstd::prelude::*;

use crate::pubkey::{curve_point, is_on_curve, parse_pubkey_text, pubkey_from_str_spec, default_pubkey_string};

verus! {

/// Largest number of bytes that a discriminator can use.
pub const MAX_DISCRIMINATOR_SIZE: u8 = 32;

/// The reasons for which a configuration is refused.
#[derive(Debug, Clone, Copy, PartialEq, Eq)]
pub enum ConfigError {
    /// The discriminator size is greater than 32.
    DiscriminatorSizeTooLarge,
    /// The discriminator size is 0.
    DiscriminatorSizeTooSmall,
    /// No discriminator is registered under the requested name.
    MissingDiscriminator,
    /// The registered discriminator does not have `discriminator_size` bytes.
    WrongDiscriminatorSize,
    /// The program key is not a valid textual public key.
    InvalidPubkey,
    /// The program key does not lie on the ed25519 curve.
    PubkeyNotOnCurve,
}

/// The discriminator registered under `name`: the value of the first entry whose key is `name`.
pub open spec fn lookup_discriminator(entries: Seq<(String, Vec<u8>)>, name: Seq<char>) -> Option<Seq<u8>>
    decreases entries.len(),
{
    if entries.len() == 0 {
        None
    } else if entries[0].0@ == name {
        Some(entries[0].1@)
    } else {
        lookup_discriminator(entries.drop_first(), name)
    }
}

/// Whether no name is registered twice, as in the map that the
/// configuration file describes.
pub open spec fn distinct_names(entries: Seq<(String, Vec<u8>)>) -> bool {
    forall|i: int, j: int| 0 <= i < j < entries.len() ==> (#[trigger] entries[i]).0@ != (#[trigger] entries[j]).0@
}

/// Law: in a table where no name is registered twice, the discriminator
/// found under a name is the one registered with it, wherever it stands, as
/// a map lookup gives it.
pub proof fn law_lookup_finds_registered(entries: Seq<(String, Vec<u8>)>, i: int)
    requires
        distinct_names(entries),
        0 <= i < entries.len(),
    ensures
        lookup_discriminator(entries, entries[i].0@) == Some(entries[i].1@),
    decreases entries.len(),
{
    if i > 0 {
        let tail = entries.drop_first();
        assert(tail[i - 1] == entries[i]);
        assert(entries[0].0@ != entries[i].0@);
        assert forall|a: int, b: int| 0 <= a < b < tail.len() implies (#[trigger] tail[a]).0@ != (#[trigger] tail[b]).0@ by {
            assert(tail[a] == entries[a + 1]);
            assert(tail[b] == entries[b + 1]);
        }
        law_lookup_finds_registered(tail, i - 1);
    }
}

proof fn lemma_lookup_absent(entries: Seq<(String, Vec<u8>)>, name: Seq<char>)
    requires
        forall|i: int| 0 <= i < entries.len() ==> (#[trigger] entries[i]).0@ != name,
    ensures
        lookup_discriminator(entries, name) is None,
    decreases entries.len(),
{
    if entries.len() > 0 {
        assert(entries[0].0@ != name);
        let tail = entries.drop_first();
        assert forall|i: int| 0 <= i < tail.len() implies (#[trigger] tail[i]).0@ != name by {
            assert(tail[i] == entries[i + 1]);
        }
        lemma_lookup_absent(tail, name);
    }
}

/// Law: in a table where no name is registered twice, looking up `name`
/// with discriminators of `size` bytes gives the discriminator registered
/// under `name` when it has `size` bytes, refuses it as of the wrong size
/// when it has another length, and reports it missing when no entry has
/// that name.
pub proof fn law_discriminator_lookup(entries: Seq<(String, Vec<u8>)>, size: u8, name: Seq<char>)
    requires
        distinct_names(entries),
    ensures
        forall|i: int|
            0 <= i < entries.len() && (#[trigger] entries[i]).0@ == name ==> discriminator_lookup(
                entries,
                size,
                name,
            ) == (if entries[i].1@.len() == size as nat {
                Ok::<Seq<u8>, ConfigError>(entries[i].1@)
            } else {
                Err::<Seq<u8>, ConfigError>(ConfigError::WrongDiscriminatorSize)
            }),
        (forall|i: int| 0 <= i < entries.len() ==> (#[trigger] entries[i]).0@ != name) ==> discriminator_lookup(
            entries,
            size,
            name,
        ) == Err::<Seq<u8>, ConfigError>(ConfigError::MissingDiscriminator),
{
    assert forall|i: int|
        0 <= i < entries.len() && (#[trigger] entries[i]).0@ == name implies discriminator_lookup(
            entries,
            size,
            name,
        ) == (if entries[i].1@.len() == size as nat {
            Ok::<Seq<u8>, ConfigError>(entries[i].1@)
        } else {
            Err::<Seq<u8>, ConfigError>(ConfigError::WrongDiscriminatorSize)
        }) by {
        law_lookup_finds_registered(entries, i);
    }
    if forall|i: int| 0 <= i < entries.len() ==> (#[trigger] entries[i]).0@ != name {
        lemma_lookup_absent(entries, name);
    }
}

/// Whether a discriminator size is accepted: between 1 and 32 bytes.
pub open spec fn valid_discriminator_size(size: u8) -> bool {
    1 <= size <= MAX_DISCRIMINATOR_SIZE
}

/// The outcome of checking a discriminator size.
pub open spec fn discriminator_size_check(size: u8) -> Result<(), ConfigError> {
    if size > MAX_DISCRIMINATOR_SIZE {
        Err(ConfigError::DiscriminatorSizeTooLarge)
    } else if size < 1 {
        Err(ConfigError::DiscriminatorSizeTooSmall)
    } else {
        Ok(())
    }
}

/// The outcome of looking up the discriminator `name` in a table of entries
/// whose discriminators must have `size` bytes.
pub open spec fn discriminator_lookup(
    entries: Seq<(String, Vec<u8>)>,
    size: u8,
    name: Seq<char>,
) -> Result<Seq<u8>, ConfigError> {
    match lookup_discriminator(entries, name) {
        None => Err(ConfigError::MissingDiscriminator),
        Some(d) => if d.len() == size as nat {
            Ok(d)
        } else {
            Err(ConfigError::WrongDiscriminatorSize)
        },
    }
}

/// Law: a discriminator size is accepted exactly when it lies between 1
/// and 32; above 32 it is too large, and 0 is too small. Both the account
/// and the instruction settings obey it.
pub proof fn law_discriminator_size_bounds(size: u8, a: FankorAccountsConfig, i: FankorInstructionsConfig)
    ensures
        (discriminator_size_check(size) is Ok) == (1 <= size && size <= 32),
        size > 32 ==> discriminator_size_check(size) == Err::<(), ConfigError>(
            ConfigError::DiscriminatorSizeTooLarge,
        ),
        size == 0 ==> discriminator_size_check(size) == Err::<(), ConfigError>(
            ConfigError::DiscriminatorSizeTooSmall,
        ),
        a.is_valid() == (1 <= a.discriminator_size && a.discriminator_size <= 32),
        i.is_valid() == (1 <= i.discriminator_size && i.discriminator_size <= 32),
{
}

fn check_discriminator_size(size: u8) -> (r: Result<(), ConfigError>)
    ensures
        r == discriminator_size_check(size),
{
    if size > MAX_DISCRIMINATOR_SIZE {
        Err(ConfigError::DiscriminatorSizeTooLarge)
    } else if size < 1 {
        Err(ConfigError::DiscriminatorSizeTooSmall)
    } else {
        Ok(())
    }
}

fn find_discriminator(entries: &Vec<(String, Vec<u8>)>, size: u8, name: &str) -> (r: Result<
    Vec<u8>,
    ConfigError,
>)
    ensures
        match r {
            Ok(d) => discriminator_lookup(entries@, size, name@) == Ok::<Seq<u8>, ConfigError>(d@),
            Err(e) => discriminator_lookup(entries@, size, name@) == Err::<Seq<u8>, ConfigError>(e),
        },
{
    let key: String = name.to_owned();
    let mut i: usize = 0;
    assert(entries@.skip(0) =~= entries@);
    while i < entries.len()
        invariant
            0 <= i <= entries@.len(),
            key@ == name@,
            lookup_discriminator(entries@, name@) == lookup_discriminator(
                entries@.skip(i as int),
                name@,
            ),
        decreases entries@.len() - i,
    {
        assert(entries@.skip(i as int).drop_first() =~= entries@.skip(i + 1));
        if entries[i].0 == key {
            let value = entries[i].1.clone();
            assert(value@ =~= entries@[i as int].1@);
            if value.len() == size as usize {
                return Ok(value);
            } else {
                return Err(ConfigError::WrongDiscriminatorSize);
            }
        }
        i = i + 1;
    }
    Err(ConfigError::MissingDiscriminator)
}

/// The account settings of the `Fankor.toml` file.
pub struct FankorAccountsConfig {
    /// The number of bytes used to define the account discriminators.
    pub discriminator_size: u8,
    /// A manual list of account discriminators, by account name; no name
    /// appears twice.
    pub discriminators: Vec<(String, Vec<u8>)>,
}

impl FankorAccountsConfig {
    /// Whether the configuration is accepted by `validate`.
    pub open spec fn is_valid(&self) -> bool {
        valid_discriminator_size(self.discriminator_size)
    }

    /// Checks the configuration, naming the first rule it breaks.
    pub fn check(&self) -> (r: Result<(), ConfigError>)
        ensures
            r == discriminator_size_check(self.discriminator_size),
            r is Ok <==> self.is_valid(),
    {
        check_discriminator_size(self.discriminator_size)
    }

    /// Validates the configuration: the discriminator size lies between 1 and 32.
    pub fn validate(&self)
        requires
            self.is_valid(),
    {
    }

    /// Looks up the discriminator of the account `name`, naming the failure
    /// when it is missing or does not have `discriminator_size` bytes.
    pub fn find_discriminator(&self, name: &str) -> (r: Result<Vec<u8>, ConfigError>)
        requires
            distinct_names(self.discriminators@),
        ensures
            match r {
                Ok(d) => discriminator_lookup(self.discriminators@, self.discriminator_size, name@)
                    == Ok::<Seq<u8>, ConfigError>(d@),
                Err(e) => discriminator_lookup(
                    self.discriminators@,
                    self.discriminator_size,
                    name@,
                ) == Err::<Seq<u8>, ConfigError>(e),
            },
    {
        find_discriminator(&self.discriminators, self.discriminator_size, name)
    }

    /// The discriminator of the account `name`, which must be registered with
    /// `discriminator_size` bytes.
    pub fn get_discriminator(&self, name: &str) -> (r: Vec<u8>)
        requires
            distinct_names(self.discriminators@),
            discriminator_lookup(self.discriminators@, self.discriminator_size, name@) is Ok,
        ensures
            discriminator_lookup(self.discriminators@, self.discriminator_size, name@)
                == Ok::<Seq<u8>, ConfigError>(r@),
            lookup_discriminator(self.discriminators@, name@) == Some(r@),
            r@.len() == self.discriminator_size,
    {
        match find_discriminator(&self.discriminators, self.discriminator_size, name) {
            Ok(d) => d,
            Err(_) => Vec::new(),
        }
    }
}

impl Default for FankorAccountsConfig {
    fn default() -> (r: Self)
        ensures
            r.discriminator_size == 1,
            r.discriminators@.len() == 0,
    {
        FankorAccountsConfig { discriminator_size: 1, discriminators: Vec::new() }
    }
}


/// The instruction settings of the `Fankor.toml` file.
pub struct FankorInstructionsConfig {
    /// The number of bytes used to define the instruction discriminators.
    pub discriminator_size: u8,
    /// A manual list of instruction discriminators, by instruction name; no
    /// name appears twice.
    pub discriminators: Vec<(String, Vec<u8>)>,
}

impl FankorInstructionsConfig {
    /// Whether the configuration is accepted by `validate`.
    pub open spec fn is_valid(&self) -> bool {
        valid_discriminator_size(self.discriminator_size)
    }

    /// Checks the configuration, naming the first rule it breaks.
    pub fn check(&self) -> (r: Result<(), ConfigError>)
        ensures
            r == discriminator_size_check(self.discriminator_size),
            r is Ok <==> self.is_valid(),
    {
        check_discriminator_size(self.discriminator_size)
    }

    /// Validates the configuration: the discriminator size lies between 1 and 32.
    pub fn validate(&self)
        requires
            self.is_valid(),
    {
    }

    /// Looks up the discriminator of the instruction `name`, naming the
    /// failure when it is missing or does not have `discriminator_size` bytes.
    pub fn find_discriminator(&self, name: &str) -> (r: Result<Vec<u8>, ConfigError>)
        requires
            distinct_names(self.discriminators@),
        ensures
            match r {
                Ok(d) => discriminator_lookup(self.discriminators@, self.discriminator_size, name@)
                    == Ok::<Seq<u8>, ConfigError>(d@),
                Err(e) => discriminator_lookup(
                    self.discriminators@,
                    self.discriminator_size,
                    name@,
                ) == Err::<Seq<u8>, ConfigError>(e),
            },
    {
        find_discriminator(&self.discriminators, self.discriminator_size, name)
    }

    /// The discriminator of the instruction `name`, which must be registered
    /// with `discriminator_size` bytes.
    pub fn get_discriminator(&self, name: &str) -> (r: Vec<u8>)
        requires
            distinct_names(self.discriminators@),
            discriminator_lookup(self.discriminators@, self.discriminator_size, name@) is Ok,
        ensures
            discriminator_lookup(self.discriminators@, self.discriminator_size, name@)
                == Ok::<Seq<u8>, ConfigError>(r@),
            lookup_discriminator(self.discriminators@, name@) == Some(r@),
            r@.len() == self.discriminator_size,
    {
        match find_discriminator(&self.discriminators, self.discriminator_size, name) {
            Ok(d) => d,
            Err(_) => Vec::new(),
        }
    }
}

impl Default for FankorInstructionsConfig {
    fn default() -> (r: Self)
        ensures
            r.discriminator_size == 1,
            r.discriminators@.len() == 0,
    {
        FankorInstructionsConfig { discriminator_size: 1, discriminators: Vec::new() }
    }
}

/// The outcome of checking the program key `pubkey`: it must parse as a
/// public key and lie on the curve.
pub open spec fn program_pubkey_check(pubkey: Seq<char>) -> Result<(), ConfigError> {
    match pubkey_from_str_spec(pubkey) {
        Err(_) => Err(ConfigError::InvalidPubkey),
        Ok(bytes) => if curve_point(bytes) {
            Ok(())
        } else {
            Err(ConfigError::PubkeyNotOnCurve)
        },
    }
}

/// The program settings of the `Fankor.toml` file.
pub struct FankorProgramConfig {
    /// The public key of the program, in base58.
    pub pubkey: String,
}

impl FankorProgramConfig {
    /// Whether the configuration is accepted by `validate`.
    pub open spec fn is_valid(&self) -> bool {
        program_pubkey_check(self.pubkey@) is Ok
    }

    /// Checks the program key, naming the first rule it breaks.
    pub fn check(&self) -> (r: Result<(), ConfigError>)
        ensures
            r == program_pubkey_check(self.pubkey@),
            r is Ok <==> self.is_valid(),
    {
        match parse_pubkey_text(self.pubkey.as_str()) {
            Err(_) => Err(ConfigError::InvalidPubkey),
            Ok(bytes) => if is_on_curve(bytes) {
                Ok(())
            } else {
                Err(ConfigError::PubkeyNotOnCurve)
            },
        }
    }

    /// Validates the configuration: the program key parses and lies on the curve.
    pub fn validate(&self)
        requires
            self.is_valid(),
    {
    }

    /// Checks the configuration and validates it when the check passes.
    pub fn try_validate(&self) -> (r: Result<(), ConfigError>)
        ensures
            r == program_pubkey_check(self.pubkey@),
    {
        let r = self.check();
        if r.is_ok() {
            self.validate();
        }
        r
    }
}

impl Default for FankorProgramConfig {
    fn default() -> (r: Self)
        ensures
            r.pubkey@ == Seq::new(32, |i: int| '1'),
    {
        FankorProgramConfig { pubkey: default_pubkey_string() }
    }
}

/// The whole `Fankor.toml` configuration.
pub struct FankorConfig {
    /// The program configuration.
    pub program: FankorProgramConfig,
}

impl FankorConfig {
    /// Whether the configuration is accepted by `validate`.
    pub open spec fn is_valid(&self) -> bool {
        self.program.is_valid()
    }

    /// Validates the configuration, that is the program configuration.
    pub fn validate(&self)
        requires
            self.is_valid(),
    {
        self.program.validate();
    }

    /// Checks the configuration and validates it when the check passes.
    pub fn try_validate(&self) -> (r: Result<(), ConfigError>)
        ensures
            r == program_pubkey_check(self.program.pubkey@),
            r is Ok <==> self.is_valid(),
    {
        let r = self.program.check();
        if r.is_ok() {
            self.validate();
        }
        r
    }
}

/// Law: the whole configuration is accepted exactly when its program key
/// parses as a public key (base58 text of at most 44 characters that
/// decodes to 32 bytes) that lies on the ed25519 curve.
pub proof fn law_config_accepts_program_key(c: FankorConfig)
    ensures
        c.is_valid() == (pubkey_from_str_spec(c.program.pubkey@) matches Ok(b) && curve_point(b)),
        c.is_valid() == c.program.is_valid(),
{
}

impl Default for FankorConfig {
    fn default() -> (r: Self)
        ensures
            r.program.pubkey@ == Seq::new(32, |i: int| '1'),
    {
        FankorConfig { program: FankorProgramConfig::default() }
    }
}

} // verus!
