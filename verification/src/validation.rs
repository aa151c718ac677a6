//! Input validation: name charsets, resource bounds, environment and
//! secret limits, and volume path rules. Everything here is
//! side-effect free; a spec that fails validation never reaches an
//! engine.

use vstd::prelude::*;

verus! {

use vstd::string::StringSliceAdditionalSpecFns;
use crate::bytes::{spec_contains, spec_starts_with, bytes_contains, bytes_starts_with};
use crate::types::{AgentConfig, VolumeMount};

/// Smallest accepted memory limit in MB.
pub const MIN_MEMORY_MB: u32 = 128;

/// Largest accepted memory limit in MB.
pub const MAX_MEMORY_MB: u32 = 65536;

/// Smallest accepted CPU limit in millicores.
pub const MIN_CPU_MILLICORES: u32 = 100;

/// Largest accepted CPU limit in millicores.
pub const MAX_CPU_MILLICORES: u32 = 16000;

/// Longest accepted container name.
pub const MAX_NAME_LEN: usize = 63;

/// Most environment variables accepted on one agent.
pub const MAX_ENV_VARS_COUNT: usize = 64;

/// Most secrets accepted on one agent.
pub const MAX_SECRETS_COUNT: usize = 16;

/// Most volumes accepted on one agent.
pub const MAX_VOLUMES_COUNT: usize = 16;

/// Longest accepted environment key.
pub const MAX_ENV_KEY_LEN: usize = 128;

/// Longest accepted environment value.
pub const MAX_ENV_VALUE_LEN: usize = 4096;

/// Longest accepted secret name.
pub const MAX_SECRET_NAME_LEN: usize = 64;

/// Longest accepted volume path.
pub const MAX_PATH_LEN: usize = 255;

/// Why an agent specification was rejected. A rejected spec never
/// reaches the engine.
#[derive(Clone, Copy, Debug, PartialEq, Eq, Structural)]
pub enum ValidationError {
    InvalidName,
    InvalidMemory,
    InvalidCpu,
    TooManyEnvVars,
    InvalidEnvKey,
    InvalidEnvValue,
    TooManySecrets,
    InvalidSecretName,
    TooManyVolumes,
    InvalidVolumeTarget,
    InvalidVolumeSource,
}

impl ValidationError {
    /// A short description of the rejection.
    pub fn message(&self) -> (r: &'static str)
        ensures
            self is InvalidName ==> r@ == "invalid container name"@,
            self is InvalidVolumeSource ==> r@ == "volume source is not allowed"@,
    {
        match self {
            ValidationError::InvalidName => "invalid container name",
            ValidationError::InvalidMemory => "memory limit out of bounds",
            ValidationError::InvalidCpu => "cpu limit out of bounds",
            ValidationError::TooManyEnvVars => "too many environment variables",
            ValidationError::InvalidEnvKey => "invalid environment key",
            ValidationError::InvalidEnvValue => "invalid environment value",
            ValidationError::TooManySecrets => "too many secrets",
            ValidationError::InvalidSecretName => "invalid secret name",
            ValidationError::TooManyVolumes => "too many volumes",
            ValidationError::InvalidVolumeTarget => "volume target is not allowed",
            ValidationError::InvalidVolumeSource => "volume source is not allowed",
        }
    }
}

/// ASCII letter or digit.
pub open spec fn spec_is_alnum(b: u8) -> bool {
    (48 <= b <= 57) || (65 <= b <= 90) || (97 <= b <= 122)
}

/// Characters a container name may hold after the first one.
pub open spec fn spec_is_name_char(b: u8) -> bool {
    spec_is_alnum(b) || b == 45 || b == 95 || b == 46
}

/// A valid container name: non-empty, at most `MAX_NAME_LEN` bytes,
/// starting with a letter or digit, holding only letters, digits,
/// `-`, `_` and `.`.
pub open spec fn spec_valid_name(s: Seq<u8>) -> bool {
    &&& 0 < s.len() <= MAX_NAME_LEN
    &&& spec_is_alnum(s[0])
    &&& forall|j: int| 0 <= j < s.len() ==> spec_is_name_char(#[trigger] s[j])
}

/// Check one byte of a name.
fn is_name_char(b: u8) -> (r: bool)
    ensures
        r == spec_is_name_char(b),
{
    (48 <= b && b <= 57) || (65 <= b && b <= 90) || (97 <= b && b <= 122) || b == 45 || b == 95
        || b == 46
}

/// Validate a container or agent name against the charset and length
/// rule. `Ok` exactly when the name is valid.
#[verifier::loop_isolation(false)]
pub fn validate_container_name(name: &str) -> (r: Result<(), ValidationError>)
    ensures
        r is Ok <==> spec_valid_name(name.spec_bytes()),
        r is Err ==> r->Err_0 == ValidationError::InvalidName,
{
    let b = name.as_bytes();
    if b.len() == 0 || b.len() > MAX_NAME_LEN {
        return Err(ValidationError::InvalidName);
    }
    let first = b[0];
    if !((48 <= first && first <= 57) || (65 <= first && first <= 90) || (97 <= first && first
        <= 122)) {
        return Err(ValidationError::InvalidName);
    }
    let mut i: usize = 0;
    while i < b.len()
        invariant
            i <= b@.len(),
            forall|j: int| 0 <= j < i ==> spec_is_name_char(#[trigger] b@[j]),
        decreases b@.len() - i,
    {
        if !is_name_char(b[i]) {
            return Err(ValidationError::InvalidName);
        }
        i = i + 1;
    }
    Ok(())
}

/// Validate the declared memory. `Ok` exactly within
/// [`MIN_MEMORY_MB`, `MAX_MEMORY_MB`].
pub fn validate_memory_mb(memory_mb: u32) -> (r: Result<(), ValidationError>)
    ensures
        r is Ok <==> MIN_MEMORY_MB <= memory_mb <= MAX_MEMORY_MB,
        r is Err ==> r->Err_0 == ValidationError::InvalidMemory,
{
    if MIN_MEMORY_MB <= memory_mb && memory_mb <= MAX_MEMORY_MB {
        Ok(())
    } else {
        Err(ValidationError::InvalidMemory)
    }
}

/// Validate the declared CPU. `Ok` exactly within
/// [`MIN_CPU_MILLICORES`, `MAX_CPU_MILLICORES`].
pub fn validate_cpu_millicores(cpu_millicores: u32) -> (r: Result<(), ValidationError>)
    ensures
        r is Ok <==> MIN_CPU_MILLICORES <= cpu_millicores <= MAX_CPU_MILLICORES,
        r is Err ==> r->Err_0 == ValidationError::InvalidCpu,
{
    if MIN_CPU_MILLICORES <= cpu_millicores && cpu_millicores <= MAX_CPU_MILLICORES {
        Ok(())
    } else {
        Err(ValidationError::InvalidCpu)
    }
}

/// A valid environment key: non-empty, at most `MAX_ENV_KEY_LEN`
/// bytes, starting with a letter or `_`, holding only letters, digits
/// and `_`.
pub open spec fn spec_valid_env_key(s: Seq<u8>) -> bool {
    &&& 0 < s.len() <= MAX_ENV_KEY_LEN
    &&& ((65 <= s[0] <= 90) || (97 <= s[0] <= 122) || s[0] == 95)
    &&& forall|j: int| 0 <= j < s.len() ==> spec_is_alnum(#[trigger] s[j]) || s[j] == 95
}

/// Validate an environment key. `Ok` exactly when the key is valid.
#[verifier::loop_isolation(false)]
pub fn validate_env_key(key: &str) -> (r: Result<(), ValidationError>)
    ensures
        r is Ok <==> spec_valid_env_key(key.spec_bytes()),
        r is Err ==> r->Err_0 == ValidationError::InvalidEnvKey,
{
    let b = key.as_bytes();
    if b.len() == 0 || b.len() > MAX_ENV_KEY_LEN {
        return Err(ValidationError::InvalidEnvKey);
    }
    let first = b[0];
    if !((65 <= first && first <= 90) || (97 <= first && first <= 122) || first == 95) {
        return Err(ValidationError::InvalidEnvKey);
    }
    let mut i: usize = 0;
    while i < b.len()
        invariant
            i <= b@.len(),
            forall|j: int| 0 <= j < i ==> spec_is_alnum(#[trigger] b@[j]) || b@[j] == 95,
        decreases b@.len() - i,
    {
        let c = b[i];
        if !((48 <= c && c <= 57) || (65 <= c && c <= 90) || (97 <= c && c <= 122) || c == 95) {
            return Err(ValidationError::InvalidEnvKey);
        }
        i = i + 1;
    }
    Ok(())
}

/// A valid environment value: at most `MAX_ENV_VALUE_LEN` bytes,
/// without NUL or newline.
pub open spec fn spec_valid_env_value(s: Seq<u8>) -> bool {
    &&& s.len() <= MAX_ENV_VALUE_LEN
    &&& forall|j: int| 0 <= j < s.len() ==> #[trigger] s[j] != 0 && s[j] != 10
}

/// Validate an environment value. `Ok` exactly when the value is valid.
#[verifier::loop_isolation(false)]
pub fn validate_env_value(value: &str) -> (r: Result<(), ValidationError>)
    ensures
        r is Ok <==> spec_valid_env_value(value.spec_bytes()),
        r is Err ==> r->Err_0 == ValidationError::InvalidEnvValue,
{
    let b = value.as_bytes();
    if b.len() > MAX_ENV_VALUE_LEN {
        return Err(ValidationError::InvalidEnvValue);
    }
    let mut i: usize = 0;
    while i < b.len()
        invariant
            i <= b@.len(),
            forall|j: int| 0 <= j < i ==> #[trigger] b@[j] != 0 && b@[j] != 10,
        decreases b@.len() - i,
    {
        let c = b[i];
        if c == 0 || c == 10 {
            return Err(ValidationError::InvalidEnvValue);
        }
        i = i + 1;
    }
    Ok(())
}

/// A valid secret name: non-empty, at most `MAX_SECRET_NAME_LEN`
/// bytes, holding only letters, digits, `-` and `_`.
pub open spec fn spec_valid_secret_name(s: Seq<u8>) -> bool {
    &&& 0 < s.len() <= MAX_SECRET_NAME_LEN
    &&& forall|j: int|
        0 <= j < s.len() ==> spec_is_alnum(#[trigger] s[j]) || s[j] == 45 || s[j] == 95
}

/// Validate a secret name. `Ok` exactly when the name is valid.
#[verifier::loop_isolation(false)]
pub fn validate_secret_name(name: &str) -> (r: Result<(), ValidationError>)
    ensures
        r is Ok <==> spec_valid_secret_name(name.spec_bytes()),
        r is Err ==> r->Err_0 == ValidationError::InvalidSecretName,
{
    let b = name.as_bytes();
    if b.len() == 0 || b.len() > MAX_SECRET_NAME_LEN {
        return Err(ValidationError::InvalidSecretName);
    }
    let mut i: usize = 0;
    while i < b.len()
        invariant
            i <= b@.len(),
            forall|j: int|
                0 <= j < i ==> spec_is_alnum(#[trigger] b@[j]) || b@[j] == 45 || b@[j] == 95,
        decreases b@.len() - i,
    {
        let c = b[i];
        if !((48 <= c && c <= 57) || (65 <= c && c <= 90) || (97 <= c && c <= 122) || c == 45
            || c == 95) {
            return Err(ValidationError::InvalidSecretName);
        }
        i = i + 1;
    }
    Ok(())
}

/// A character a volume path may hold.
pub open spec fn spec_is_path_char(b: u8) -> bool {
    spec_is_alnum(b) || b == 45 || b == 95 || b == 46 || b == 47
}

/// The allow-pattern for a container target path: absolute, at most
/// `MAX_PATH_LEN` bytes, path charset only, and no `..` segment.
pub open spec fn spec_valid_target(s: Seq<u8>) -> bool {
    &&& 1 < s.len() <= MAX_PATH_LEN
    &&& s[0] == 47
    &&& (forall|j: int| 0 <= j < s.len() ==> spec_is_path_char(#[trigger] s[j]))
    &&& !spec_contains(s, seq![46u8, 46u8])
}

/// Validate a container target path against the allow-pattern.
/// `Ok` exactly when the target is allowed.
#[verifier::loop_isolation(false)]
pub fn validate_container_target(target: &str) -> (r: Result<(), ValidationError>)
    ensures
        r is Ok <==> spec_valid_target(target.spec_bytes()),
        r is Err ==> r->Err_0 == ValidationError::InvalidVolumeTarget,
{
    let b = target.as_bytes();
    if b.len() <= 1 || b.len() > MAX_PATH_LEN {
        return Err(ValidationError::InvalidVolumeTarget);
    }
    if b[0] != 47 {
        return Err(ValidationError::InvalidVolumeTarget);
    }
    let mut i: usize = 0;
    while i < b.len()
        invariant
            i <= b@.len(),
            forall|j: int| 0 <= j < i ==> spec_is_path_char(#[trigger] b@[j]),
        decreases b@.len() - i,
    {
        let c = b[i];
        if !((48 <= c && c <= 57) || (65 <= c && c <= 90) || (97 <= c && c <= 122) || c == 45
            || c == 95 || c == 46 || c == 47) {
            return Err(ValidationError::InvalidVolumeTarget);
        }
        i = i + 1;
    }
    let dotdot: [u8; 2] = [46, 46];
    if bytes_contains(b, &dotdot) {
        proof {
            assert(dotdot@ =~= seq![46u8, 46u8]);
        }
        return Err(ValidationError::InvalidVolumeTarget);
    }
    proof {
        assert(dotdot@ =~= seq![46u8, 46u8]);
    }
    Ok(())
}

/// The deny-list of sensitive host path prefixes: credential stores,
/// identity directories and the engine daemon socket.
pub open spec fn spec_denied_source(s: Seq<u8>) -> bool {
    ||| spec_starts_with(s, "/etc/passwd"@.map(|_i: int, c: char| c as u8))
    ||| spec_starts_with(s, "/etc/shadow"@.map(|_i: int, c: char| c as u8))
    ||| spec_starts_with(s, "/root/.ssh"@.map(|_i: int, c: char| c as u8))
    ||| spec_starts_with(s, "/var/run/docker.sock"@.map(|_i: int, c: char| c as u8))
}

/// A valid volume source: non-empty, at most `MAX_PATH_LEN` bytes, no
/// `..`, and not under a deny-listed sensitive host path.
pub open spec fn spec_valid_source(s: Seq<u8>) -> bool {
    &&& 0 < s.len() <= MAX_PATH_LEN
    &&& !spec_contains(s, seq![46u8, 46u8])
    &&& !spec_denied_source(s)
}

/// Validate a volume source path: path traversal and sensitive host
/// paths are rejected. `Ok` exactly when the source is allowed.
pub fn validate_volume_source(source: &str) -> (r: Result<(), ValidationError>)
    ensures
        r is Ok <==> spec_valid_source(source.spec_bytes()),
        r is Err ==> r->Err_0 == ValidationError::InvalidVolumeSource,
{
    let b = source.as_bytes();
    if b.len() == 0 || b.len() > MAX_PATH_LEN {
        return Err(ValidationError::InvalidVolumeSource);
    }
    let dotdot: [u8; 2] = [46, 46];
    proof {
        assert(dotdot@ =~= seq![46u8, 46u8]);
    }
    if bytes_contains(b, &dotdot) {
        return Err(ValidationError::InvalidVolumeSource);
    }
    proof {
        reveal_strlit("/etc/passwd");
        reveal_strlit("/etc/shadow");
        reveal_strlit("/root/.ssh");
        reveal_strlit("/var/run/docker.sock");
        assert(vstd::string::is_ascii("/etc/passwd"));
        assert(vstd::string::is_ascii("/etc/shadow"));
        assert(vstd::string::is_ascii("/root/.ssh"));
        assert(vstd::string::is_ascii("/var/run/docker.sock"));
    }
    if denied_prefix(b, "/etc/passwd") || denied_prefix(b, "/etc/shadow") || denied_prefix(
        b,
        "/root/.ssh",
    ) || denied_prefix(b, "/var/run/docker.sock") {
        return Err(ValidationError::InvalidVolumeSource);
    }
    Ok(())
}

/// Validation result for an environment list: the first entry with an
/// invalid key or value decides.
pub open spec fn spec_validate_env(
    env: Seq<(Seq<char>, Seq<char>)>,
) -> Result<(), ValidationError>
    decreases env.len(),
{
    if env.len() == 0 {
        Ok(())
    } else if !spec_valid_env_key(vstd::utf8::encode_utf8(env[0].0)) {
        Err(ValidationError::InvalidEnvKey)
    } else if !spec_valid_env_value(vstd::utf8::encode_utf8(env[0].1)) {
        Err(ValidationError::InvalidEnvValue)
    } else {
        spec_validate_env(env.drop_first())
    }
}

/// Validation result for a secret-name list.
pub open spec fn spec_validate_secrets(secrets: Seq<Seq<char>>) -> Result<(), ValidationError>
    decreases secrets.len(),
{
    if secrets.len() == 0 {
        Ok(())
    } else if !spec_valid_secret_name(vstd::utf8::encode_utf8(secrets[0])) {
        Err(ValidationError::InvalidSecretName)
    } else {
        spec_validate_secrets(secrets.drop_first())
    }
}

/// Validation result for a volume list: each target against the
/// allow-pattern, each source against traversal and the deny-list.
pub open spec fn spec_validate_volumes(
    volumes: Seq<crate::types::VolumeMountView>,
) -> Result<(), ValidationError>
    decreases volumes.len(),
{
    if volumes.len() == 0 {
        Ok(())
    } else if !spec_valid_target(vstd::utf8::encode_utf8(volumes[0].target)) {
        Err(ValidationError::InvalidVolumeTarget)
    } else if !spec_valid_source(vstd::utf8::encode_utf8(volumes[0].source)) {
        Err(ValidationError::InvalidVolumeSource)
    } else {
        spec_validate_volumes(volumes.drop_first())
    }
}

/// Validation result for a whole agent specification, checks in a
/// fixed order: name, memory, CPU, environment count and entries,
/// secret count and names, volume count and paths.
pub open spec fn spec_validate(
    name: Seq<char>,
    cfg: crate::types::AgentConfigView,
) -> Result<(), ValidationError> {
    if !spec_valid_name(vstd::utf8::encode_utf8(name)) {
        Err(ValidationError::InvalidName)
    } else if !(MIN_MEMORY_MB <= cfg.memory_mb <= MAX_MEMORY_MB) {
        Err(ValidationError::InvalidMemory)
    } else if !(MIN_CPU_MILLICORES <= cfg.cpu_millicores <= MAX_CPU_MILLICORES) {
        Err(ValidationError::InvalidCpu)
    } else if cfg.env_vars.len() > MAX_ENV_VARS_COUNT {
        Err(ValidationError::TooManyEnvVars)
    } else if spec_validate_env(cfg.env_vars) is Err {
        spec_validate_env(cfg.env_vars)
    } else if cfg.secrets.len() > MAX_SECRETS_COUNT {
        Err(ValidationError::TooManySecrets)
    } else if spec_validate_secrets(cfg.secrets) is Err {
        spec_validate_secrets(cfg.secrets)
    } else if cfg.volumes.len() > MAX_VOLUMES_COUNT {
        Err(ValidationError::TooManyVolumes)
    } else {
        spec_validate_volumes(cfg.volumes)
    }
}

/// Validate a whole agent specification against every rule, in the
/// fixed order that `spec_validate` lays down. Side-effect free.
#[verifier::loop_isolation(false)]
pub fn validate(name: &str, config: &AgentConfig) -> (r: Result<(), ValidationError>)
    ensures
        r == spec_validate(name@, config@),
{
    if let Err(e) = validate_container_name(name) {
        return Err(e);
    }
    if let Err(e) = validate_memory_mb(config.memory_mb) {
        return Err(e);
    }
    if let Err(e) = validate_cpu_millicores(config.cpu_millicores) {
        return Err(e);
    }
    if config.env_vars.len() > MAX_ENV_VARS_COUNT {
        return Err(ValidationError::TooManyEnvVars);
    }
    let ghost edv = config.env_vars.deep_view();
    let mut i: usize = 0;
    proof {
        assert(edv.subrange(0, edv.len() as int) =~= edv);
    }
    while i < config.env_vars.len()
        invariant
            i <= edv.len(),
            edv.len() == config.env_vars@.len(),
            forall|j: int|
                0 <= j < edv.len() ==> edv[j] == (
                    config.env_vars@[j].0@,
                    config.env_vars@[j].1@,
                ),
            spec_validate_env(edv) == spec_validate_env(
                edv.subrange(i as int, edv.len() as int),
            ),
        decreases edv.len() - i,
    {
        let ghost rem = edv.subrange(i as int, edv.len() as int);
        proof {
            assert(rem[0] == edv[i as int]);
            assert(rem.drop_first() =~= edv.subrange(i + 1, edv.len() as int));
        }
        if let Err(e) = validate_env_key(config.env_vars[i].0.as_str()) {
            return Err(e);
        }
        if let Err(e) = validate_env_value(config.env_vars[i].1.as_str()) {
            return Err(e);
        }
        i = i + 1;
    }
    if config.secrets.len() > MAX_SECRETS_COUNT {
        return Err(ValidationError::TooManySecrets);
    }
    let ghost sdv = config.secrets.deep_view();
    let mut i: usize = 0;
    proof {
        assert(sdv.subrange(0, sdv.len() as int) =~= sdv);
    }
    while i < config.secrets.len()
        invariant
            i <= sdv.len(),
            sdv.len() == config.secrets@.len(),
            forall|j: int| 0 <= j < sdv.len() ==> sdv[j] == config.secrets@[j]@,
            spec_validate_secrets(sdv) == spec_validate_secrets(
                sdv.subrange(i as int, sdv.len() as int),
            ),
        decreases sdv.len() - i,
    {
        let ghost rem = sdv.subrange(i as int, sdv.len() as int);
        proof {
            assert(rem[0] == sdv[i as int]);
            assert(rem.drop_first() =~= sdv.subrange(i + 1, sdv.len() as int));
        }
        if let Err(e) = validate_secret_name(config.secrets[i].as_str()) {
            return Err(e);
        }
        i = i + 1;
    }
    if config.volumes.len() > MAX_VOLUMES_COUNT {
        return Err(ValidationError::TooManyVolumes);
    }
    let ghost vdv = config.volumes.deep_view();
    let mut i: usize = 0;
    proof {
        assert(vdv.subrange(0, vdv.len() as int) =~= vdv);
    }
    while i < config.volumes.len()
        invariant
            i <= vdv.len(),
            vdv.len() == config.volumes@.len(),
            forall|j: int| 0 <= j < vdv.len() ==> vdv[j] == config.volumes@[j]@,
            spec_validate_volumes(vdv) == spec_validate_volumes(
                vdv.subrange(i as int, vdv.len() as int),
            ),
        decreases vdv.len() - i,
    {
        let ghost rem = vdv.subrange(i as int, vdv.len() as int);
        proof {
            assert(rem[0] == vdv[i as int]);
            assert(rem.drop_first() =~= vdv.subrange(i + 1, vdv.len() as int));
        }
        if let Err(e) = validate_container_target(config.volumes[i].target.as_str()) {
            return Err(e);
        }
        if let Err(e) = validate_volume_source(config.volumes[i].source.as_str()) {
            return Err(e);
        }
        i = i + 1;
    }
    Ok(())
}

/// Prefix test of a byte path against one ASCII deny-list entry.
fn denied_prefix(b: &[u8], prefix: &str) -> (r: bool)
    requires
        vstd::string::is_ascii(prefix),
    ensures
        r == spec_starts_with(b@, prefix@.map(|_i: int, c: char| c as u8)),
{
    let p = prefix.as_bytes();
    proof {
        broadcast use vstd::string::is_ascii_spec_bytes;

        assert(p@ =~= prefix@.map(|_i: int, c: char| c as u8));
    }
    bytes_starts_with(b, p)
}

} // verus!
