//! Classification rules of the machine scanners. The caller reads the
//! machine (key files, command output); these functions decide what each
//! reading means: severity, current and target cryptography, and whether the
//! app can fix it ("auto"), the user or a vendor must ("manual"), or nothing
//! is needed ("none").

use crate::text::{
    chars_of, contains, contains_chars, decimal, decimal_string, first_word, first_word_of,
    joined, last_chars, last_chars_of, lines, lines_of, lowercase, owned, parse_u32,
    parse_u32_chars, pieces_view, split, split_chars, has_prefix, starts_with, str_contains, string_of,
    strip_prefix, strip_prefix_chars, to_lowercase, trim, trimmed, match_at,
};
use vstd::prelude::*;

verus! {

/// One scanned asset and its post-quantum posture.
pub struct Finding {
    pub id: String,
    pub category: String,
    pub name: String,
    pub detail: String,
    /// "critical" | "warn" | "ok"
    pub severity: String,
    pub current_crypto: String,
    pub target_crypto: String,
    /// "auto" | "manual" | "none"
    pub remediation: String,
}

/// The content of a [`Finding`].
pub struct FindingView {
    pub id: Seq<char>,
    pub category: Seq<char>,
    pub name: Seq<char>,
    pub detail: Seq<char>,
    pub severity: Seq<char>,
    pub current_crypto: Seq<char>,
    pub target_crypto: Seq<char>,
    pub remediation: Seq<char>,
}

impl View for Finding {
    type V = FindingView;

    open spec fn view(&self) -> FindingView {
        FindingView {
            id: self.id@,
            category: self.category@,
            name: self.name@,
            detail: self.detail@,
            severity: self.severity@,
            current_crypto: self.current_crypto@,
            target_crypto: self.target_crypto@,
            remediation: self.remediation@,
        }
    }
}

/// A finding from its eight texts.
pub open spec fn fv(
    id: Seq<char>,
    category: Seq<char>,
    name: Seq<char>,
    detail: Seq<char>,
    severity: Seq<char>,
    current_crypto: Seq<char>,
    target_crypto: Seq<char>,
    remediation: Seq<char>,
) -> FindingView {
    FindingView {
        id,
        category,
        name,
        detail,
        severity,
        current_crypto,
        target_crypto,
        remediation,
    }
}

fn finding(
    id: String,
    category: &str,
    name: String,
    detail: String,
    severity: &str,
    current_crypto: String,
    target_crypto: &str,
    remediation: &str,
) -> (f: Finding)
    ensures
        f@ == fv(
            id@,
            category@,
            name@,
            detail@,
            severity@,
            current_crypto@,
            target_crypto@,
            remediation@,
        ),
{
    Finding {
        id,
        category: owned(category),
        name,
        detail,
        severity: owned(severity),
        current_crypto,
        target_crypto: owned(target_crypto),
        remediation: owned(remediation),
    }
}

fn text_eq(a: &[char], b: &str) -> (eq: bool)
    ensures
        eq == (a@ == b@),
{
    string_of(a) == owned(b)
}

// ---------- SSH keys ----------

/// The finding when a key directory holds no public key.
pub open spec fn no_ssh_keys_spec(dir: Seq<char>) -> FindingView {
    fv(
        "ssh:none"@,
        "SSH"@,
        "No SSH keys found"@,
        dir + " contains no public keys"@,
        "ok"@,
        "\u{2014}"@,
        "\u{2014}"@,
        "none"@,
    )
}

/// See [`no_ssh_keys_spec`].
pub fn no_ssh_keys_finding(dir_display: &str) -> (f: Finding)
    ensures
        f@ == no_ssh_keys_spec(dir_display@),
{
    finding(
        owned("ssh:none"),
        "SSH",
        owned("No SSH keys found"),
        joined(dir_display, " contains no public keys"),
        "ok",
        owned("\u{2014}"),
        "\u{2014}",
        "none",
    )
}

/// The key size `ssh-keygen -l` reports: the first word of its output as a number.
pub open spec fn key_bits(keygen_output: Option<Seq<char>>) -> Option<u32> {
    match keygen_output {
        Some(o) => match first_word(o) {
            Some(w) => parse_u32(w),
            None => None,
        },
        None => None,
    }
}

/// The severity, current and target cryptography, remediation and detail
/// of a public key of type `algo`.
pub open spec fn ssh_key_class(algo: Seq<char>, bits: Option<u32>) -> (
    Seq<char>,
    Seq<char>,
    Seq<char>,
    Seq<char>,
    Seq<char>,
) {
    let target = "Ed25519 + ML-DSA-65"@;
    if algo == "ssh-rsa"@ {
        let b = match bits {
            Some(b) => b,
            None => 2048,
        };
        (
            if b < 2048 {
                "critical"@
            } else {
                "warn"@
            },
            "RSA-"@ + decimal(b as nat),
            target,
            "auto"@,
            "RSA is quantum-breakable via Shor's algorithm ("@ + decimal(b as nat) + "-bit key)"@,
        )
    } else if algo == "ssh-dss"@ {
        (
            "critical"@,
            "DSA-1024"@,
            target,
            "auto"@,
            "DSA is deprecated by OpenSSH and quantum-breakable"@,
        )
    } else if algo == "ecdsa-sha2-nistp256"@ || algo == "ecdsa-sha2-nistp384"@ || algo
        == "ecdsa-sha2-nistp521"@ {
        (
            "warn"@,
            "ECDSA (NIST curve)"@,
            target,
            "auto"@,
            "ECDSA is quantum-breakable; migrate to a hybrid signature"@,
        )
    } else if algo == "ssh-ed25519"@ {
        (
            "ok"@,
            "Ed25519"@,
            "Ed25519 + ML-DSA-65 (hybrid)"@,
            "none"@,
            "Strong classical signature; pair with ML-DSA when servers support it"@,
        )
    } else {
        ("warn"@, algo, target, "manual"@, "Unrecognized key type "@ + algo)
    }
}

/// The finding of public key file `file_name`, from its content and the
/// output of `ssh-keygen -l` on it (if it ran): `None` when the file holds
/// no word to take the key type from.
pub open spec fn ssh_key_spec(
    file_name: Seq<char>,
    content: Seq<char>,
    keygen_output: Option<Seq<char>>,
) -> Option<FindingView> {
    match first_word(content) {
        None => None,
        Some(algo) => {
            let c = ssh_key_class(algo, key_bits(keygen_output));
            Some(
                fv(
                    "ssh:"@ + file_name,
                    "SSH"@,
                    "SSH key "@ + file_name,
                    c.4,
                    c.0,
                    c.1,
                    c.2,
                    c.3,
                ),
            )
        },
    }
}

/// The view of an optional string slice.
pub open spec fn opt_str(v: Option<&str>) -> Option<Seq<char>> {
    match v {
        Some(s) => Some(s@),
        None => None,
    }
}

fn key_bits_of(keygen_output: Option<&str>) -> (b: Option<u32>)
    ensures
        b == key_bits(opt_str(keygen_output)),
{
    match keygen_output {
        Some(o) => {
            let v = chars_of(o);
            match first_word_of(v.as_slice()) {
                Some(w) => parse_u32_chars(w.as_slice()),
                None => None,
            }
        },
        None => None,
    }
}

/// See [`ssh_key_spec`].
pub fn classify_ssh_key(file_name: &str, content: &str, keygen_output: Option<&str>) -> (f: Option<
    Finding,
>)
    ensures
        match ssh_key_spec(file_name@, content@, opt_str(keygen_output)) {
            Some(v) => f matches Some(x) && x@ == v,
            None => f is None,
        },
{
    let cv = chars_of(content);
    let algo = match first_word_of(cv.as_slice()) {
        Some(a) => a,
        None => return None,
    };
    let bits = key_bits_of(keygen_output);
    let id = joined("ssh:", file_name);
    let name = joined("SSH key ", file_name);
    let target = "Ed25519 + ML-DSA-65";
    let f = if text_eq(algo.as_slice(), "ssh-rsa") {
        let b: u32 = match bits {
            Some(b) => b,
            None => 2048,
        };
        let digits = decimal_string(b as u64);
        let mut detail = joined("RSA is quantum-breakable via Shor's algorithm (", digits.as_str());
        detail.append("-bit key)");
        finding(
            id,
            "SSH",
            name,
            detail,
            if b < 2048 {
                "critical"
            } else {
                "warn"
            },
            joined("RSA-", digits.as_str()),
            target,
            "auto",
        )
    } else if text_eq(algo.as_slice(), "ssh-dss") {
        finding(
            id,
            "SSH",
            name,
            owned("DSA is deprecated by OpenSSH and quantum-breakable"),
            "critical",
            owned("DSA-1024"),
            target,
            "auto",
        )
    } else if text_eq(algo.as_slice(), "ecdsa-sha2-nistp256") || text_eq(
        algo.as_slice(),
        "ecdsa-sha2-nistp384",
    ) || text_eq(algo.as_slice(), "ecdsa-sha2-nistp521") {
        finding(
            id,
            "SSH",
            name,
            owned("ECDSA is quantum-breakable; migrate to a hybrid signature"),
            "warn",
            owned("ECDSA (NIST curve)"),
            target,
            "auto",
        )
    } else if text_eq(algo.as_slice(), "ssh-ed25519") {
        finding(
            id,
            "SSH",
            name,
            owned("Strong classical signature; pair with ML-DSA when servers support it"),
            "ok",
            owned("Ed25519"),
            "Ed25519 + ML-DSA-65 (hybrid)",
            "none",
        )
    } else {
        let a = string_of(algo.as_slice());
        finding(
            id,
            "SSH",
            name,
            joined("Unrecognized key type ", a.as_str()),
            "warn",
            string_of(algo.as_slice()),
            target,
            "manual",
        )
    };
    Some(f)
}

/// A public key file as read from the key directory: its file name, its
/// content, and the output of `ssh-keygen -l` on it, if that ran.
pub struct KeyFile {
    pub name: String,
    pub content: String,
    pub keygen_output: Option<String>,
}

/// The view of an optional owned string.
pub open spec fn opt_string(v: Option<String>) -> Option<Seq<char>> {
    match v {
        Some(s) => Some(s@),
        None => None,
    }
}

/// The findings of the key files that yield one, in order.
pub open spec fn classified_keys(keys: Seq<KeyFile>) -> Seq<FindingView>
    decreases keys.len(),
{
    if keys.len() == 0 {
        Seq::empty()
    } else {
        let k = keys.last();
        match ssh_key_spec(k.name@, k.content@, opt_string(k.keygen_output)) {
            Some(f) => classified_keys(keys.drop_last()).push(f),
            None => classified_keys(keys.drop_last()),
        }
    }
}

/// The SSH findings of a key directory: one per classified key file, or the
/// "no keys" finding when there is none.
pub open spec fn ssh_dir_spec(dir: Seq<char>, keys: Seq<KeyFile>) -> Seq<FindingView> {
    if classified_keys(keys).len() == 0 {
        seq![no_ssh_keys_spec(dir)]
    } else {
        classified_keys(keys)
    }
}

/// See [`ssh_dir_spec`].
pub fn ssh_key_findings(dir_display: &str, keys: &[KeyFile]) -> (fs: Vec<Finding>)
    ensures
        findings_view(fs@) == ssh_dir_spec(dir_display@, keys@),
{
    let mut out: Vec<Finding> = Vec::new();
    let mut i: usize = 0;
    while i < keys.len()
        invariant
            i <= keys@.len(),
            findings_view(out@) == classified_keys(keys@.take(i as int)),
        decreases keys@.len() - i,
    {
        let k = &keys[i];
        let keygen: Option<&str> = match &k.keygen_output {
            Some(o) => Some(o.as_str()),
            None => None,
        };
        assert(keys@.take(i + 1).drop_last() =~= keys@.take(i as int));
        assert(keys@.take(i + 1).last() == keys@[i as int]);
        match classify_ssh_key(k.name.as_str(), k.content.as_str(), keygen) {
            Some(f) => {
                let ghost before = out@;
                out.push(f);
                assert(findings_view(out@) =~= findings_view(before).push(f@));
            },
            None => {},
        }
        i = i + 1;
    }
    assert(keys@.take(keys@.len() as int) =~= keys@);
    if out.len() == 0 {
        let mut none: Vec<Finding> = Vec::new();
        let f = no_ssh_keys_finding(dir_display);
        none.push(f);
        assert(findings_view(none@) =~= seq![no_ssh_keys_spec(dir_display@)]);
        return none;
    }
    out
}

// ---------- disk, OS and Git ----------

/// The FileVault finding, from whether `fdesetup status` reports it on.
pub open spec fn filevault_spec(on: bool) -> FindingView {
    if on {
        fv(
            "disk:filevault"@,
            "Disk"@,
            "FileVault disk encryption"@,
            "Full-disk encryption enabled (AES-XTS is quantum-resistant at 256-bit)"@,
            "ok"@,
            "AES-XTS-128/256"@,
            "AES-XTS-256"@,
            "none"@,
        )
    } else {
        fv(
            "disk:filevault"@,
            "Disk"@,
            "FileVault disk encryption"@,
            "Disk is not encrypted \u{2014} anyone with physical access can read your data"@,
            "critical"@,
            "None"@,
            "AES-XTS-256"@,
            "manual"@,
        )
    }
}

/// FileVault is on when `fdesetup status` ran and says so.
pub open spec fn filevault_on(fdesetup_output: Option<Seq<char>>) -> bool {
    match fdesetup_output {
        Some(o) => contains(o, "FileVault is On"@),
        None => false,
    }
}

/// The FileVault finding from the output of `fdesetup status`, if it ran.
pub fn filevault_finding(fdesetup_output: Option<&str>) -> (f: Finding)
    ensures
        f@ == filevault_spec(filevault_on(opt_str(fdesetup_output))),
{
    let on = match fdesetup_output {
        Some(o) => str_contains(o, "FileVault is On"),
        None => false,
    };
    if on {
        finding(
            owned("disk:filevault"),
            "Disk",
            owned("FileVault disk encryption"),
            owned("Full-disk encryption enabled (AES-XTS is quantum-resistant at 256-bit)"),
            "ok",
            owned("AES-XTS-128/256"),
            "AES-XTS-256",
            "none",
        )
    } else {
        finding(
            owned("disk:filevault"),
            "Disk",
            owned("FileVault disk encryption"),
            owned("Disk is not encrypted \u{2014} anyone with physical access can read your data"),
            "critical",
            owned("None"),
            "AES-XTS-256",
            "manual",
        )
    }
}

/// The major version of a macOS version string: the number before the
/// first dot, 0 when that is not a number.
pub open spec fn major_version(version: Seq<char>) -> u32 {
    match parse_u32(split(version, "."@)[0]) {
        Some(m) => m,
        None => 0,
    }
}

/// The OS finding: macOS 14 and later ship hybrid PQ key exchange in the
/// system TLS stack.
pub open spec fn os_version_spec(version: Seq<char>) -> FindingView {
    if major_version(version) >= 14 {
        fv(
            "os:version"@,
            "System"@,
            "macOS "@ + version,
            "OS TLS stack supports hybrid post-quantum key exchange"@,
            "ok"@,
            "X25519 + Kyber (system TLS)"@,
            "X25519MLKEM768"@,
            "none"@,
        )
    } else {
        fv(
            "os:version"@,
            "System"@,
            "macOS "@ + version,
            "Older OS \u{2014} system TLS lacks post-quantum key exchange. Update macOS."@,
            "warn"@,
            "Classical TLS only"@,
            "X25519MLKEM768"@,
            "manual"@,
        )
    }
}

/// See [`os_version_spec`]; `version` is the trimmed `sw_vers -productVersion`
/// output, or "unknown" when it did not run.
pub fn os_version_finding(version: &str) -> (f: Finding)
    ensures
        f@ == os_version_spec(version@),
{
    let v = chars_of(version);
    let dot: Vec<char> = vec!['.'];
    proof {
        reveal_strlit(".");
    }
    assert(dot@ =~= "."@);
    let parts = split_chars(v.as_slice(), dot.as_slice());
    proof {
        crate::text::lemma_split_nonempty(v@, dot@, 0);
    }
    assert(pieces_view(parts@)[0] == parts@[0]@);
    let major: u32 = match parse_u32_chars(parts[0].as_slice()) {
        Some(m) => m,
        None => 0,
    };
    let name = joined("macOS ", version);
    if major >= 14 {
        finding(
            owned("os:version"),
            "System",
            name,
            owned("OS TLS stack supports hybrid post-quantum key exchange"),
            "ok",
            owned("X25519 + Kyber (system TLS)"),
            "X25519MLKEM768",
            "none",
        )
    } else {
        finding(
            owned("os:version"),
            "System",
            name,
            owned("Older OS \u{2014} system TLS lacks post-quantum key exchange. Update macOS."),
            "warn",
            owned("Classical TLS only"),
            "X25519MLKEM768",
            "manual",
        )
    }
}

/// The Git signing finding from the output of `git config --global
/// gpg.format`: none when unset; SSH signing follows the SSH key posture;
/// anything else is GPG, typically RSA.
pub open spec fn git_signing_spec(output: Seq<char>) -> Option<FindingView> {
    let format = trim(output);
    if format.len() == 0 {
        None
    } else if format == "ssh"@ {
        Some(
            fv(
                "git:signing"@,
                "Git"@,
                "Git commit signing"@,
                "Signing with SSH key \u{2014} algorithm follows your SSH key posture"@,
                "ok"@,
                "SSH signature"@,
                "Ed25519 + ML-DSA-65"@,
                "none"@,
            ),
        )
    } else {
        Some(
            fv(
                "git:signing"@,
                "Git"@,
                "Git commit signing (GPG)"@,
                "GPG keys are typically RSA \u{2014} quantum-breakable signatures on your commits"@,
                "warn"@,
                "GPG (likely RSA)"@,
                "Ed25519 SSH signing"@,
                "manual"@,
            ),
        )
    }
}

/// See [`git_signing_spec`].
pub fn git_signing_finding(output: &str) -> (f: Option<Finding>)
    ensures
        match git_signing_spec(output@) {
            Some(v) => f matches Some(x) && x@ == v,
            None => f is None,
        },
{
    let v = chars_of(output);
    let format = trimmed(v.as_slice());
    if format.len() == 0 {
        return None;
    }
    if text_eq(format.as_slice(), "ssh") {
        Some(
            finding(
                owned("git:signing"),
                "Git",
                owned("Git commit signing"),
                owned("Signing with SSH key \u{2014} algorithm follows your SSH key posture"),
                "ok",
                owned("SSH signature"),
                "Ed25519 + ML-DSA-65",
                "none",
            ),
        )
    } else {
        Some(
            finding(
                owned("git:signing"),
                "Git",
                owned("Git commit signing (GPG)"),
                owned("GPG keys are typically RSA \u{2014} quantum-breakable signatures on your commits"),
                "warn",
                owned("GPG (likely RSA)"),
                "Ed25519 SSH signing",
                "manual",
            ),
        )
    }
}


// ---------- known hosts ----------

/// Lines that are not blank.
pub open spec fn count_nonblank(ls: Seq<Seq<char>>) -> nat
    decreases ls.len(),
{
    if ls.len() == 0 {
        0
    } else {
        count_nonblank(ls.drop_last()) + if trim(ls.last()).len() > 0 {
            1nat
        } else {
            0nat
        }
    }
}

/// A remembered server presents an RSA or DSA host key.
pub open spec fn weak_host_line(l: Seq<char>) -> bool {
    contains(l, " ssh-rsa "@) || contains(l, " ssh-dss "@)
}

/// Lines with an RSA or DSA host key.
pub open spec fn count_weak_hosts(ls: Seq<Seq<char>>) -> nat
    decreases ls.len(),
{
    if ls.len() == 0 {
        0
    } else {
        count_weak_hosts(ls.drop_last()) + if weak_host_line(ls.last()) {
            1nat
        } else {
            0nat
        }
    }
}

/// The known-hosts finding: none for an empty file; otherwise how many of
/// the remembered servers still present RSA/DSA host keys.
pub open spec fn known_hosts_spec(content: Seq<char>) -> Option<FindingView> {
    let ls = lines(content);
    let total = count_nonblank(ls);
    let weak = count_weak_hosts(ls);
    if total == 0 {
        None
    } else if weak > 0 {
        Some(
            fv(
                "ssh:known_hosts"@,
                "SSH"@,
                "Known hosts (server keys)"@,
                decimal(weak) + " of "@ + decimal(total)
                    + " remembered servers present RSA/DSA host keys. The fix is server-side; reconnecting after servers upgrade refreshes these."@,
                "warn"@,
                decimal(weak) + "\u{d7} ssh-rsa/dss"@,
                "ssh-ed25519"@,
                "manual"@,
            ),
        )
    } else {
        Some(
            fv(
                "ssh:known_hosts"@,
                "SSH"@,
                "Known hosts (server keys)"@,
                "All "@ + decimal(total) + " remembered server keys use modern algorithms"@,
                "ok"@,
                "ssh-ed25519 / ecdsa"@,
                "ssh-ed25519"@,
                "none"@,
            ),
        )
    }
}

/// See [`known_hosts_spec`].
pub fn known_hosts_finding(content: &str) -> (f: Option<Finding>)
    ensures
        match known_hosts_spec(content@) {
            Some(v) => f matches Some(x) && x@ == v,
            None => f is None,
        },
{
    let cv = chars_of(content);
    let ls = lines_of(cv.as_slice());
    let ghost lv = pieces_view(ls@);
    let rsa: Vec<char> = vec![' ', 's', 's', 'h', '-', 'r', 's', 'a', ' '];
    let dss: Vec<char> = vec![' ', 's', 's', 'h', '-', 'd', 's', 's', ' '];
    proof {
        reveal_strlit(" ssh-rsa ");
        reveal_strlit(" ssh-dss ");
    }
    assert(rsa@ =~= " ssh-rsa "@);
    assert(dss@ =~= " ssh-dss "@);
    let mut total: usize = 0;
    let mut weak: usize = 0;
    let mut i: usize = 0;
    while i < ls.len()
        invariant
            i <= ls@.len(),
            lv == pieces_view(ls@),
            lv == lines(content@),
            rsa@ == " ssh-rsa "@,
            dss@ == " ssh-dss "@,
            total == count_nonblank(lv.take(i as int)),
            weak == count_weak_hosts(lv.take(i as int)),
            total <= i,
            weak <= i,
        decreases ls@.len() - i,
    {
        assert(lv[i as int] == ls@[i as int]@);
        assert(lv.take(i + 1).drop_last() =~= lv.take(i as int));
        let line = &ls[i];
        if trimmed(line.as_slice()).len() > 0 {
            total = total + 1;
        }
        if contains_chars(line.as_slice(), rsa.as_slice()) || contains_chars(
            line.as_slice(),
            dss.as_slice(),
        ) {
            weak = weak + 1;
        }
        i = i + 1;
    }
    assert(lv.take(ls@.len() as int) =~= lv);
    if total == 0 {
        return None;
    }
    let t = decimal_string(total as u64);
    let w = decimal_string(weak as u64);
    if weak > 0 {
        let mut detail = owned(w.as_str());
        detail.append(" of ");
        detail.append(t.as_str());
        detail.append(
            " remembered servers present RSA/DSA host keys. The fix is server-side; reconnecting after servers upgrade refreshes these.",
        );
        Some(
            finding(
                owned("ssh:known_hosts"),
                "SSH",
                owned("Known hosts (server keys)"),
                detail,
                "warn",
                joined(w.as_str(), "\u{d7} ssh-rsa/dss"),
                "ssh-ed25519",
                "manual",
            ),
        )
    } else {
        let mut detail = joined("All ", t.as_str());
        detail.append(" remembered server keys use modern algorithms");
        Some(
            finding(
                owned("ssh:known_hosts"),
                "SSH",
                owned("Known hosts (server keys)"),
                detail,
                "ok",
                owned("ssh-ed25519 / ecdsa"),
                "ssh-ed25519",
                "none",
            ),
        )
    }
}

// ---------- GPG keyring ----------

/// Field `i` of a colon-separated record, if present.
pub open spec fn field(fields: Seq<Seq<char>>, i: int) -> Option<Seq<char>> {
    if 0 <= i < fields.len() {
        Some(fields[i])
    } else {
        None
    }
}

/// The GPG algorithm id of a record (field 4), 0 when absent or not a number.
pub open spec fn gpg_algo(fields: Seq<Seq<char>>) -> u32 {
    match field(fields, 3) {
        Some(a) => match parse_u32(a) {
            Some(v) => v,
            None => 0,
        },
        None => 0,
    }
}

/// Severity and current cryptography of a GPG key: ids 1-3 are RSA, 16 and
/// 17 ElGamal/DSA, 18 and 19 ECC on NIST curves, 22 EdDSA.
pub open spec fn gpg_class(algo: u32, bits: Seq<char>) -> (Seq<char>, Seq<char>) {
    if 1 <= algo && algo <= 3 {
        ("warn"@, "RSA-"@ + bits)
    } else if algo == 16 || algo == 17 {
        ("critical"@, "DSA/ElGamal-"@ + bits)
    } else if algo == 18 || algo == 19 {
        ("warn"@, "ECC (NIST)"@)
    } else if algo == 22 {
        ("ok"@, "EdDSA (Ed25519)"@)
    } else {
        ("warn"@, "algo #"@ + decimal(algo as nat))
    }
}

/// The finding of one `pub:` record of `gpg --list-keys --with-colons`.
pub open spec fn gpg_key_spec(line: Seq<char>) -> FindingView {
    let fields = split(line, ":"@);
    let bits = match field(fields, 2) {
        Some(b) => b,
        None => "?"@,
    };
    let key_id = match field(fields, 4) {
        Some(k) => k,
        None => Seq::empty(),
    };
    let c = gpg_class(gpg_algo(fields), bits);
    fv(
        "gpg:"@ + key_id,
        "GPG"@,
        "GPG key \u{2026}"@ + last_chars(key_id, 8),
        if c.0 == "ok"@ {
            "Modern curve signature; quantum-safe GPG requires a future ML-DSA-capable release"@
        } else {
            "Quantum-breakable public key in your GPG keyring. Generate an Ed25519 GPG key and re-sign; revoke this one when peers have migrated."@
        },
        c.0,
        c.1,
        "Ed25519 (GPG) \u{2192} ML-DSA when supported"@,
        "manual"@,
    )
}

/// The findings of the `pub:` records among `ls`, in order.
pub open spec fn gpg_findings_spec(ls: Seq<Seq<char>>) -> Seq<FindingView>
    decreases ls.len(),
{
    if ls.len() == 0 {
        Seq::empty()
    } else if starts_with(ls.last(), "pub:"@) {
        gpg_findings_spec(ls.drop_last()).push(gpg_key_spec(ls.last()))
    } else {
        gpg_findings_spec(ls.drop_last())
    }
}

/// The views of a sequence of findings.
pub open spec fn findings_view(fs: Seq<Finding>) -> Seq<FindingView> {
    fs.map_values(|f: Finding| f@)
}

fn gpg_key_finding(line: &[char]) -> (f: Finding)
    ensures
        f@ == gpg_key_spec(line@),
{
    let colon: Vec<char> = vec![':'];
    proof {
        reveal_strlit(":");
    }
    assert(colon@ =~= ":"@);
    let fields = split_chars(line, colon.as_slice());
    let ghost fv_ = pieces_view(fields@);
    let bits: String = if fields.len() > 2 {
        assert(fv_[2] == fields@[2]@);
        string_of(fields[2].as_slice())
    } else {
        owned("?")
    };
    let algo: u32 = if fields.len() > 3 {
        assert(fv_[3] == fields@[3]@);
        match parse_u32_chars(fields[3].as_slice()) {
            Some(v) => v,
            None => 0,
        }
    } else {
        0
    };
    let key_id: Vec<char> = if fields.len() > 4 {
        assert(fv_[4] == fields@[4]@);
        crate::text::sub_chars(fields[4].as_slice(), 0, fields[4].len())
    } else {
        Vec::new()
    };
    assert(key_id@ == match field(fv_, 4) {
        Some(k) => k,
        None => Seq::<char>::empty(),
    }) by {
        if fields@.len() > 4 {
            assert(key_id@ =~= fv_[4]);
        } else {
            assert(key_id@ =~= Seq::<char>::empty());
        }
    }
    assert(fv_ == split(line@, ":"@));
    assert(bits@ == match field(fv_, 2) {
        Some(b) => b,
        None => "?"@,
    });
    assert(algo == gpg_algo(fv_));
    let short = last_chars_of(key_id.as_slice(), 8);
    let (severity, current): (&str, String) = if 1 <= algo && algo <= 3 {
        ("warn", joined("RSA-", bits.as_str()))
    } else if algo == 16 || algo == 17 {
        ("critical", joined("DSA/ElGamal-", bits.as_str()))
    } else if algo == 18 || algo == 19 {
        ("warn", owned("ECC (NIST)"))
    } else if algo == 22 {
        ("ok", owned("EdDSA (Ed25519)"))
    } else {
        let d = decimal_string(algo as u64);
        ("warn", joined("algo #", d.as_str()))
    };
    let detail = if algo == 22 {
        owned("Modern curve signature; quantum-safe GPG requires a future ML-DSA-capable release")
    } else {
        owned("Quantum-breakable public key in your GPG keyring. Generate an Ed25519 GPG key and re-sign; revoke this one when peers have migrated.")
    };
    proof {
        reveal_strlit("ok");
        reveal_strlit("warn");
        reveal_strlit("critical");
    }
    let kid = string_of(key_id.as_slice());
    let sid = string_of(short.as_slice());
    assert("ok"@.len() == 2 && "warn"@.len() == 4 && "critical"@.len() == 8);
    assert("ok"@ != "warn"@ && "ok"@ != "critical"@);
    assert(("ok"@ == gpg_class(algo, bits@).0) == (algo == 22));
    finding(
        joined("gpg:", kid.as_str()),
        "GPG",
        joined("GPG key \u{2026}", sid.as_str()),
        detail,
        severity,
        current,
        "Ed25519 (GPG) \u{2192} ML-DSA when supported",
        "manual",
    )
}

/// The GPG findings from the output of `gpg --list-keys --with-colons`.
pub fn gpg_findings(listing: &str) -> (fs: Vec<Finding>)
    ensures
        findings_view(fs@) == gpg_findings_spec(lines(listing@)),
{
    let cv = chars_of(listing);
    let ls = lines_of(cv.as_slice());
    let ghost lv = pieces_view(ls@);
    let prefix: Vec<char> = vec!['p', 'u', 'b', ':'];
    proof {
        reveal_strlit("pub:");
    }
    assert(prefix@ =~= "pub:"@);
    let mut fs: Vec<Finding> = Vec::new();
    let mut i: usize = 0;
    while i < ls.len()
        invariant
            i <= ls@.len(),
            lv == pieces_view(ls@),
            lv == lines(listing@),
            prefix@ == "pub:"@,
            findings_view(fs@) == gpg_findings_spec(lv.take(i as int)),
        decreases ls@.len() - i,
    {
        assert(lv[i as int] == ls@[i as int]@);
        assert(lv.take(i + 1).drop_last() =~= lv.take(i as int));
        assert(lv.take(i + 1).last() == lv[i as int]);
        if match_at(ls[i].as_slice(), prefix.as_slice(), 0) {
            let f = gpg_key_finding(ls[i].as_slice());
            let ghost before = fs@;
            fs.push(f);
            assert(findings_view(fs@) =~= findings_view(before).push(f@));
        }
        i = i + 1;
    }
    assert(lv.take(ls@.len() as int) =~= lv);
    fs
}


// ---------- Wi-Fi ----------

/// The value of the first `Security:` line among `ls`.
pub open spec fn security_value(ls: Seq<Seq<char>>) -> Option<Seq<char>>
    decreases ls.len(),
{
    if ls.len() == 0 {
        None
    } else {
        match strip_prefix(trim(ls[0]), "Security:"@) {
            Some(r) => Some(trim(r)),
            None => security_value(ls.drop_first()),
        }
    }
}

/// The security mode of the current network: the first `Security:` line
/// of the block after "Current Network Information:" in the
/// `system_profiler SPAirPortDataType` output.
pub open spec fn current_security(output: Seq<char>) -> Option<Seq<char>> {
    let parts = split(output, "Current Network Information:"@);
    if parts.len() < 2 {
        None
    } else {
        security_value(lines(parts[1]))
    }
}

/// Severity, remediation and detail of a Wi-Fi security mode.
pub open spec fn wifi_class(security: Seq<char>) -> (Seq<char>, Seq<char>, Seq<char>) {
    if contains(security, "WPA3"@) {
        ("ok"@, "none"@, "WPA3 uses SAE \u{2014} strong against offline capture"@)
    } else if contains(security, "WPA2"@) {
        (
            "warn"@,
            "auto"@,
            "WPA2 traffic can be captured today and decrypted later. The CryptiQ tunnel wraps it in quantum-safe encryption."@,
        )
    } else if contains(lowercase(security), "none"@) || contains(security, "Open"@) {
        ("critical"@, "auto"@, "Open network \u{2014} all traffic visible. Tunnel required."@)
    } else {
        ("warn"@, "auto"@, "Legacy security mode: "@ + security)
    }
}

/// The Wi-Fi finding, none when no current network is reported.
pub open spec fn wifi_spec(output: Seq<char>) -> Option<FindingView> {
    match current_security(output) {
        None => None,
        Some(sec) => {
            let c = wifi_class(sec);
            Some(
                fv(
                    "net:wifi"@,
                    "Network"@,
                    "Current Wi-Fi network"@,
                    c.2,
                    c.0,
                    sec,
                    "ML-KEM-768 tunnel"@,
                    c.1,
                ),
            )
        },
    }
}

fn security_value_of(ls: &Vec<Vec<char>>) -> (v: Option<Vec<char>>)
    ensures
        match security_value(pieces_view(ls@)) {
            Some(x) => v matches Some(y) && y@ == x,
            None => v is None,
        },
{
    let marker: Vec<char> = vec!['S', 'e', 'c', 'u', 'r', 'i', 't', 'y', ':'];
    proof {
        reveal_strlit("Security:");
    }
    assert(marker@ =~= "Security:"@);
    let ghost lv = pieces_view(ls@);
    let mut i: usize = 0;
    assert(lv.skip(0) =~= lv);
    while i < ls.len()
        invariant
            i <= ls@.len(),
            lv == pieces_view(ls@),
            marker@ == "Security:"@,
            security_value(lv) == security_value(lv.skip(i as int)),
        decreases ls@.len() - i,
    {
        assert(lv.skip(i as int)[0] == ls@[i as int]@);
        assert(lv.skip(i as int).drop_first() =~= lv.skip(i + 1));
        let t = trimmed(ls[i].as_slice());
        match strip_prefix_chars(t.as_slice(), marker.as_slice()) {
            Some(rest) => {
                return Some(trimmed(rest.as_slice()));
            },
            None => {},
        }
        i = i + 1;
    }
    assert(lv.skip(ls@.len() as int) =~= Seq::<Seq<char>>::empty());
    None
}

/// See [`wifi_spec`].
pub fn wifi_finding(output: &str) -> (f: Option<Finding>)
    ensures
        match wifi_spec(output@) {
            Some(v) => f matches Some(x) && x@ == v,
            None => f is None,
        },
{
    let cv = chars_of(output);
    let marker = chars_of("Current Network Information:");
    proof {
        reveal_strlit("Current Network Information:");
    }
    let parts = split_chars(cv.as_slice(), marker.as_slice());
    if parts.len() < 2 {
        return None;
    }
    assert(pieces_view(parts@)[1] == parts@[1]@);
    let ls = lines_of(parts[1].as_slice());
    let sec_chars = match security_value_of(&ls) {
        Some(v) => v,
        None => return None,
    };
    let sec = string_of(sec_chars.as_slice());
    let (severity, remediation, detail): (&str, &str, String) = if str_contains(
        sec.as_str(),
        "WPA3",
    ) {
        ("ok", "none", owned("WPA3 uses SAE \u{2014} strong against offline capture"))
    } else if str_contains(sec.as_str(), "WPA2") {
        (
            "warn",
            "auto",
            owned(
                "WPA2 traffic can be captured today and decrypted later. The CryptiQ tunnel wraps it in quantum-safe encryption.",
            ),
        )
    } else if str_contains(to_lowercase(sec.as_str()).as_str(), "none") || str_contains(
        sec.as_str(),
        "Open",
    ) {
        ("critical", "auto", owned("Open network \u{2014} all traffic visible. Tunnel required."))
    } else {
        ("warn", "auto", joined("Legacy security mode: ", sec.as_str()))
    };
    Some(
        finding(
            owned("net:wifi"),
            "Network",
            owned("Current Wi-Fi network"),
            detail,
            severity,
            string_of(sec_chars.as_slice()),
            "ML-KEM-768 tunnel",
            remediation,
        ),
    )
}

// ---------- Keychain certificates ----------

/// The certificates in a PEM dump: each piece before an END line that holds
/// a BEGIN line, closed again with the END line.
pub open spec fn pem_pieces(pieces: Seq<Seq<char>>) -> Seq<Seq<char>>
    decreases pieces.len(),
{
    if pieces.len() == 0 {
        Seq::empty()
    } else if contains(pieces.last(), "-----BEGIN CERTIFICATE-----"@) {
        pem_pieces(pieces.drop_last()).push(
            pieces.last() + "-----END CERTIFICATE-----\n"@,
        )
    } else {
        pem_pieces(pieces.drop_last())
    }
}

/// See [`pem_pieces`].
pub open spec fn pem_certificates_spec(pem: Seq<char>) -> Seq<Seq<char>> {
    pem_pieces(split(pem, "-----END CERTIFICATE-----"@))
}

/// The views of a sequence of strings.
pub open spec fn strings_view(v: Seq<String>) -> Seq<Seq<char>> {
    v.map_values(|s: String| s@)
}

/// The certificates in the output of `security find-certificate -a -p`.
pub fn pem_certificates(pem: &str) -> (certs: Vec<String>)
    ensures
        strings_view(certs@) == pem_certificates_spec(pem@),
{
    let cv = chars_of(pem);
    let end_marker = chars_of("-----END CERTIFICATE-----");
    let begin_marker = chars_of("-----BEGIN CERTIFICATE-----");
    proof {
        reveal_strlit("-----END CERTIFICATE-----");
    }
    let pieces = split_chars(cv.as_slice(), end_marker.as_slice());
    let ghost pv = pieces_view(pieces@);
    let mut certs: Vec<String> = Vec::new();
    let mut i: usize = 0;
    while i < pieces.len()
        invariant
            i <= pieces@.len(),
            pv == pieces_view(pieces@),
            pv == split(pem@, "-----END CERTIFICATE-----"@),
            begin_marker@ == "-----BEGIN CERTIFICATE-----"@,
            strings_view(certs@) == pem_pieces(pv.take(i as int)),
        decreases pieces@.len() - i,
    {
        assert(pv[i as int] == pieces@[i as int]@);
        assert(pv.take(i + 1).drop_last() =~= pv.take(i as int));
        assert(pv.take(i + 1).last() == pv[i as int]);
        if contains_chars(pieces[i].as_slice(), begin_marker.as_slice()) {
            let mut c = string_of(pieces[i].as_slice());
            c.append("-----END CERTIFICATE-----\n");
            let ghost before = certs@;
            certs.push(c);
            assert(strings_view(certs@) =~= strings_view(before).push(certs@.last()@));
        }
        i = i + 1;
    }
    assert(pv.take(pieces@.len() as int) =~= pv);
    certs
}

/// The key size printed by `openssl x509 -text` ("Public-Key: (N bit)"):
/// the first such line whose first word parses.
pub open spec fn printed_key_bits(ls: Seq<Seq<char>>) -> Option<u32>
    decreases ls.len(),
{
    if ls.len() == 0 {
        None
    } else {
        let here = match strip_prefix(trim(ls[0]), "Public-Key: ("@) {
            Some(r) => match first_word(r) {
                Some(w) => parse_u32(w),
                None => None,
            },
            None => None,
        };
        match here {
            Some(b) => Some(b),
            None => printed_key_bits(ls.drop_first()),
        }
    }
}

/// A certificate carries an RSA key under 2048 bits.
pub open spec fn weak_rsa_spec(openssl_text: Seq<char>) -> bool {
    let bits = match printed_key_bits(lines(openssl_text)) {
        Some(b) => b,
        None => 0,
    };
    contains(openssl_text, "rsaEncryption"@) && bits > 0 && bits < 2048
}

fn printed_key_bits_of(ls: &Vec<Vec<char>>) -> (b: Option<u32>)
    ensures
        b == printed_key_bits(pieces_view(ls@)),
{
    let marker = chars_of("Public-Key: (");
    let ghost lv = pieces_view(ls@);
    let mut i: usize = 0;
    assert(lv.skip(0) =~= lv);
    while i < ls.len()
        invariant
            i <= ls@.len(),
            lv == pieces_view(ls@),
            marker@ == "Public-Key: ("@,
            printed_key_bits(lv) == printed_key_bits(lv.skip(i as int)),
        decreases ls@.len() - i,
    {
        assert(lv.skip(i as int)[0] == ls@[i as int]@);
        assert(lv.skip(i as int).drop_first() =~= lv.skip(i + 1));
        let t = trimmed(ls[i].as_slice());
        let here = match strip_prefix_chars(t.as_slice(), marker.as_slice()) {
            Some(rest) => match first_word_of(rest.as_slice()) {
                Some(w) => parse_u32_chars(w.as_slice()),
                None => None,
            },
            None => None,
        };
        if here.is_some() {
            return here;
        }
        i = i + 1;
    }
    assert(lv.skip(ls@.len() as int) =~= Seq::<Seq<char>>::empty());
    None
}

/// Whether the `openssl x509 -noout -text` output shows an RSA key under
/// 2048 bits.
pub fn cert_is_weak_rsa(openssl_text: &str) -> (weak: bool)
    ensures
        weak == weak_rsa_spec(openssl_text@),
{
    let cv = chars_of(openssl_text);
    let ls = lines_of(cv.as_slice());
    let bits: u32 = match printed_key_bits_of(&ls) {
        Some(b) => b,
        None => 0,
    };
    str_contains(openssl_text, "rsaEncryption") && bits > 0 && bits < 2048
}

/// How many of the given `openssl` texts show a weak RSA key.
pub open spec fn count_weak_rsa(texts: Seq<Seq<char>>) -> nat
    decreases texts.len(),
{
    if texts.len() == 0 {
        0
    } else {
        count_weak_rsa(texts.drop_last()) + if weak_rsa_spec(texts.last()) {
            1nat
        } else {
            0nat
        }
    }
}

/// See [`count_weak_rsa`].
pub fn weak_rsa_count(texts: &[String]) -> (n: usize)
    ensures
        n == count_weak_rsa(strings_view(texts@)),
{
    let ghost tv = strings_view(texts@);
    let mut n: usize = 0;
    let mut i: usize = 0;
    while i < texts.len()
        invariant
            i <= texts@.len(),
            tv == strings_view(texts@),
            n == count_weak_rsa(tv.take(i as int)),
            n <= i,
        decreases texts@.len() - i,
    {
        assert(tv.take(i + 1).drop_last() =~= tv.take(i as int));
        assert(tv[i as int] == texts@[i as int]@);
        if cert_is_weak_rsa(texts[i].as_str()) {
            n = n + 1;
        }
        i = i + 1;
    }
    assert(tv.take(texts@.len() as int) =~= tv);
    n
}

/// The Keychain finding: none without certificates; otherwise how many of
/// them carry RSA keys under 2048 bits.
pub open spec fn keychain_spec(weak: nat, total: nat) -> Option<FindingView> {
    if total == 0 {
        None
    } else if weak > 0 {
        Some(
            fv(
                "keychain:certs"@,
                "Keychain"@,
                "Login Keychain certificates"@,
                decimal(weak) + " of "@ + decimal(total)
                    + " certificates carry RSA keys under 2048 bits \u{2014} breakable classically soon, quantum-trivial. These belong to the apps/services that issued them; remove or ask the vendor to reissue."@,
                "warn"@,
                decimal(weak) + "\u{d7} RSA<2048"@,
                "RSA-3072+ / ECDSA \u{2192} ML-DSA"@,
                "manual"@,
            ),
        )
    } else {
        Some(
            fv(
                "keychain:certs"@,
                "Keychain"@,
                "Login Keychain certificates"@,
                "All "@ + decimal(total) + " certificates use \u{2265}2048-bit keys"@,
                "ok"@,
                "RSA-2048+ / ECDSA"@,
                "ML-DSA when CAs issue it"@,
                "none"@,
            ),
        )
    }
}

/// See [`keychain_spec`].
pub fn keychain_finding(weak: usize, total: usize) -> (f: Option<Finding>)
    ensures
        match keychain_spec(weak as nat, total as nat) {
            Some(v) => f matches Some(x) && x@ == v,
            None => f is None,
        },
{
    if total == 0 {
        return None;
    }
    let t = decimal_string(total as u64);
    let w = decimal_string(weak as u64);
    if weak > 0 {
        let mut detail = owned(w.as_str());
        detail.append(" of ");
        detail.append(t.as_str());
        detail.append(
            " certificates carry RSA keys under 2048 bits \u{2014} breakable classically soon, quantum-trivial. These belong to the apps/services that issued them; remove or ask the vendor to reissue.",
        );
        Some(
            finding(
                owned("keychain:certs"),
                "Keychain",
                owned("Login Keychain certificates"),
                detail,
                "warn",
                joined(w.as_str(), "\u{d7} RSA<2048"),
                "RSA-3072+ / ECDSA \u{2192} ML-DSA",
                "manual",
            ),
        )
    } else {
        let mut detail = joined("All ", t.as_str());
        detail.append(" certificates use \u{2265}2048-bit keys");
        Some(
            finding(
                owned("keychain:certs"),
                "Keychain",
                owned("Login Keychain certificates"),
                detail,
                "ok",
                owned("RSA-2048+ / ECDSA"),
                "ML-DSA when CAs issue it",
                "none",
            ),
        )
    }
}

// ---------- full scan ----------

/// The finding of an optional one, as a sequence of none or one.
pub open spec fn opt_findings(f: Option<Finding>) -> Seq<FindingView> {
    match f {
        Some(x) => seq![x@],
        None => Seq::empty(),
    }
}

/// The findings of a full scan, in the order the scanners run: SSH keys,
/// FileVault, OS version, Git signing, known hosts, GPG keys, Wi-Fi,
/// Keychain certificates.
pub open spec fn assembled(
    ssh: Seq<FindingView>,
    filevault: FindingView,
    os: FindingView,
    git: Seq<FindingView>,
    known_hosts: Seq<FindingView>,
    gpg: Seq<FindingView>,
    wifi: Seq<FindingView>,
    keychain: Seq<FindingView>,
) -> Seq<FindingView> {
    ssh.push(filevault).push(os) + git + known_hosts + gpg + wifi + keychain
}

fn push_finding(out: &mut Vec<Finding>, f: Finding)
    ensures
        findings_view(final(out)@) == findings_view(old(out)@).push(f@),
{
    let ghost before = out@;
    out.push(f);
    assert(findings_view(out@) =~= findings_view(before).push(f@));
}

fn push_optional(out: &mut Vec<Finding>, f: Option<Finding>)
    ensures
        findings_view(final(out)@) == findings_view(old(out)@) + opt_findings(f),
{
    let ghost fv0 = opt_findings(f);
    match f {
        Some(x) => {
            push_finding(out, x);
            assert(findings_view(old(out)@).push(x@) =~= findings_view(old(out)@) + fv0);
        },
        None => {
            assert(findings_view(old(out)@) + fv0 =~= findings_view(old(out)@));
        },
    }
}

fn push_all(out: &mut Vec<Finding>, fs: Vec<Finding>)
    ensures
        findings_view(final(out)@) == findings_view(old(out)@) + findings_view(fs@),
{
    let ghost start = findings_view(out@);
    let ghost all = findings_view(fs@);
    let n = fs.len();
    let mut rest = fs;
    let mut i: usize = 0;
    while rest.len() > 0
        invariant
            all.len() == n,
            i + rest@.len() == all.len(),
            forall|j: int| 0 <= j < rest@.len() ==> #[trigger] rest@[j]@ == all[i + j],
            findings_view(out@) == start + all.take(i as int),
        decreases rest@.len(),
    {
        let f = rest.remove(0);
        assert(f@ == all[i as int]);
        push_finding(out, f);
        assert(all.take(i + 1) =~= all.take(i as int).push(all[i as int]));
        assert(start + all.take(i + 1) =~= (start + all.take(i as int)).push(all[i as int]));
        i = i + 1;
    }
    assert(all.take(all.len() as int) =~= all);
}

/// See [`assembled`].
pub fn assemble_findings(
    ssh: Vec<Finding>,
    filevault: Finding,
    os: Finding,
    git: Option<Finding>,
    known_hosts: Option<Finding>,
    gpg: Vec<Finding>,
    wifi: Option<Finding>,
    keychain: Option<Finding>,
) -> (fs: Vec<Finding>)
    ensures
        findings_view(fs@) == assembled(
            findings_view(ssh@),
            filevault@,
            os@,
            opt_findings(git),
            opt_findings(known_hosts),
            findings_view(gpg@),
            opt_findings(wifi),
            opt_findings(keychain),
        ),
        fs@.len() == ssh@.len() + 2 + opt_findings(git).len() + opt_findings(known_hosts).len()
            + gpg@.len() + opt_findings(wifi).len() + opt_findings(keychain).len(),
        forall|i: int| 0 <= i < ssh@.len() ==> #[trigger] fs@[i]@ == ssh@[i]@,
        fs@[ssh@.len() as int]@ == filevault@,
        fs@[ssh@.len() + 1int]@ == os@,
        forall|i: int| 0 <= i < gpg@.len() ==> findings_view(fs@).contains(#[trigger] gpg@[i]@),
        git matches Some(g) ==> findings_view(fs@).contains(g@),
        known_hosts matches Some(k) ==> findings_view(fs@).contains(k@),
        wifi matches Some(w) ==> findings_view(fs@).contains(w@),
        keychain matches Some(c) ==> findings_view(fs@).contains(c@),
{
    let ghost g0 = finding_opt_view(git);
    let ghost k0 = finding_opt_view(known_hosts);
    let ghost w0 = finding_opt_view(wifi);
    let ghost c0 = finding_opt_view(keychain);
    let ghost sv = findings_view(ssh@);
    let ghost gv = findings_view(gpg@);
    let ghost (fv0, os0) = (filevault@, os@);
    proof {
        lemma_assembled_keeps_all(sv, fv0, os0, g0, k0, gv, w0, c0);
        assert(present(g0) =~= opt_findings(git));
        assert(present(k0) =~= opt_findings(known_hosts));
        assert(present(w0) =~= opt_findings(wifi));
        assert(present(c0) =~= opt_findings(keychain));
    }
    let mut out: Vec<Finding> = Vec::new();
    assert(findings_view(out@) =~= Seq::<FindingView>::empty());
    push_all(&mut out, ssh);
    assert(Seq::<FindingView>::empty() + findings_view(ssh@) =~= findings_view(ssh@));
    push_finding(&mut out, filevault);
    push_finding(&mut out, os);
    push_optional(&mut out, git);
    push_optional(&mut out, known_hosts);
    push_all(&mut out, gpg);
    push_optional(&mut out, wifi);
    push_optional(&mut out, keychain);
    proof {
        assert forall|i: int| 0 <= i < ssh@.len() implies #[trigger] out@[i]@ == ssh@[i]@ by {
            assert(findings_view(out@)[i] == out@[i]@);
            assert(sv[i] == ssh@[i]@);
        }
        assert forall|i: int| 0 <= i < gpg@.len() implies findings_view(out@).contains(
            #[trigger] gpg@[i]@,
        ) by {
            assert(gv[i] == gpg@[i]@);
        }
    }
    out
}

// ---------- scan summary ----------

/// How many findings have the given severity.
pub open spec fn count_severity(fs: Seq<FindingView>, severity: Seq<char>) -> nat
    decreases fs.len(),
{
    if fs.len() == 0 {
        0
    } else {
        count_severity(fs.drop_last(), severity) + if fs.last().severity == severity {
            1nat
        } else {
            0nat
        }
    }
}

/// What a scan record stores: the number of findings, of critical ones and
/// of warnings.
pub struct ScanCounts {
    pub total: usize,
    pub critical: usize,
    pub warn: usize,
}

/// See [`ScanCounts`].
pub fn scan_counts(findings: &[Finding]) -> (c: ScanCounts)
    ensures
        c.total == findings@.len(),
        c.critical == count_severity(findings_view(findings@), "critical"@),
        c.warn == count_severity(findings_view(findings@), "warn"@),
{
    let ghost fv_ = findings_view(findings@);
    let mut critical: usize = 0;
    let mut warn: usize = 0;
    let mut i: usize = 0;
    while i < findings.len()
        invariant
            i <= findings@.len(),
            fv_ == findings_view(findings@),
            critical == count_severity(fv_.take(i as int), "critical"@),
            warn == count_severity(fv_.take(i as int), "warn"@),
            critical <= i,
            warn <= i,
        decreases findings@.len() - i,
    {
        assert(fv_.take(i + 1).drop_last() =~= fv_.take(i as int));
        assert(fv_[i as int] == findings@[i as int]@);
        if findings[i].severity == owned("critical") {
            critical = critical + 1;
        }
        if findings[i].severity == owned("warn") {
            warn = warn + 1;
        }
        i = i + 1;
    }
    assert(fv_.take(findings@.len() as int) =~= fv_);
    ScanCounts { total: findings.len(), critical, warn }
}


// ---------- laws of the classification rules ----------

/// The severity and remediation words are distinct.
pub proof fn lemma_words_differ()
    ensures
        "ok"@ != "warn"@,
        "ok"@ != "critical"@,
        "warn"@ != "critical"@,
        "none"@ != "auto"@,
        "none"@ != "manual"@,
        "auto"@ != "manual"@,
{
    reveal_strlit("ok");
    reveal_strlit("warn");
    reveal_strlit("critical");
    reveal_strlit("none");
    reveal_strlit("auto");
    reveal_strlit("manual");
    assert("ok"@[0] != "warn"@[0] && "ok"@[0] != "critical"@[0] && "warn"@[0] != "critical"@[0]);
    assert("none"@[0] != "auto"@[0] && "none"@[0] != "manual"@[0] && "auto"@[0] != "manual"@[0]);
}

/// SSH keys by key type: a file with no word gives no finding; an RSA key is
/// critical below 2048 bits (a size `ssh-keygen` does not report counts as
/// 2048) and a warning otherwise, never ok, and is fixed automatically; DSA
/// is critical; NIST ECDSA a warning; Ed25519 ok with nothing to do; any
/// other type a warning for manual review. The finding is named after the
/// file.
pub proof fn lemma_ssh_key_rules(file_name: Seq<char>, content: Seq<char>, keygen_output: Option<Seq<char>>)
    ensures
        first_word(content) is None <==> ssh_key_spec(file_name, content, keygen_output) is None,
        ssh_key_spec(file_name, content, keygen_output) matches Some(f) ==> f.id == "ssh:"@ + file_name
            && f.category == "SSH"@,
        first_word(content) == Some("ssh-rsa"@) ==> (ssh_key_spec(file_name, content, keygen_output)
            matches Some(f) && f.severity != "ok"@ && f.remediation == "auto"@ && (f.severity
            == "critical"@ <==> (key_bits(keygen_output) matches Some(b) && b < 2048)) && (
        f.severity == "warn"@ <==> !(key_bits(keygen_output) matches Some(b) && b < 2048))),
        first_word(content) == Some("ssh-rsa"@) && key_bits(keygen_output) == Some(4096u32)
            ==> (ssh_key_spec(file_name, content, keygen_output) matches Some(f) && f.severity
            == "warn"@ && f.current_crypto == "RSA-"@ + decimal(4096)),
        first_word(content) == Some("ssh-dss"@) ==> (ssh_key_spec(file_name, content, keygen_output)
            matches Some(f) && f.severity == "critical"@ && f.remediation == "auto"@),
        first_word(content) == Some("ecdsa-sha2-nistp256"@) || first_word(content) == Some(
            "ecdsa-sha2-nistp384"@,
        ) || first_word(content) == Some("ecdsa-sha2-nistp521"@) ==> (ssh_key_spec(
            file_name,
            content,
            keygen_output,
        ) matches Some(f) && f.severity == "warn"@ && f.remediation == "auto"@),
        first_word(content) == Some("ssh-ed25519"@) ==> (ssh_key_spec(file_name, content, keygen_output)
            matches Some(f) && f.severity == "ok"@ && f.remediation == "none"@),
{
    lemma_words_differ();
    reveal_strlit("ssh-rsa");
    reveal_strlit("ssh-dss");
    reveal_strlit("ssh-ed25519");
    reveal_strlit("ecdsa-sha2-nistp256");
    reveal_strlit("ecdsa-sha2-nistp384");
    reveal_strlit("ecdsa-sha2-nistp521");
    assert("ssh-dss"@[4] != "ssh-rsa"@[4]);
    assert("ssh-ed25519"@[4] != "ssh-rsa"@[4] && "ssh-ed25519"@[4] != "ssh-dss"@[4]);
    assert("ecdsa-sha2-nistp256"@[0] != "ssh-rsa"@[0]);
    assert("ecdsa-sha2-nistp384"@[0] != "ssh-rsa"@[0]);
    assert("ecdsa-sha2-nistp521"@[0] != "ssh-rsa"@[0]);
    assert("ssh-ed25519"@.len() != "ecdsa-sha2-nistp256"@.len());
}

/// Wi-Fi by the current network's security text: none without a current
/// network; anything mentioning WPA3 is ok with nothing to do, whatever
/// else it mentions (WPA3 is tested first); WPA2 without WPA3 is a warning
/// the tunnel fixes; an open network is critical; anything else a warning.
/// The finding reports the text as the current cryptography.
pub proof fn lemma_wifi_rules(output: Seq<char>)
    ensures
        current_security(output) is None <==> wifi_spec(output) is None,
        current_security(output) matches Some(sec) ==> (wifi_spec(output) matches Some(f) && {
            &&& f.id == "net:wifi"@
            &&& f.current_crypto == sec
            &&& contains(sec, "WPA3"@) ==> f.severity == "ok"@ && f.remediation == "none"@
            &&& !contains(sec, "WPA3"@) ==> f.severity != "ok"@ && f.remediation == "auto"@
            &&& !contains(sec, "WPA3"@) && contains(sec, "WPA2"@) ==> f.severity == "warn"@
            &&& !contains(sec, "WPA3"@) && !contains(sec, "WPA2"@) && contains(sec, "Open"@)
                ==> f.severity == "critical"@
        }),
{
    lemma_words_differ();
}

/// GPG keys by algorithm id: ids 1 to 3 (RSA) are warnings, 16 and 17
/// (ElGamal/DSA) the only critical ones, 18 and 19 (NIST ECC) warnings
/// reported as "ECC (NIST)", 22 (EdDSA) the only ok one; every key needs
/// manual work and is named by its key id.
pub proof fn lemma_gpg_key_rules(line: Seq<char>)
    ensures
        ({
            let fields = split(line, ":"@);
            let a = gpg_algo(fields);
            let f = gpg_key_spec(line);
            &&& f.remediation == "manual"@
            &&& f.category == "GPG"@
            &&& (f.severity == "critical"@ <==> (a == 16 || a == 17))
            &&& (f.severity == "ok"@ <==> a == 22)
            &&& (a == 18 || a == 19) ==> f.severity == "warn"@ && f.current_crypto == "ECC (NIST)"@
            &&& (1 <= a <= 3) ==> f.severity == "warn"@
            &&& (a == 16 || a == 17) ==> has_prefix(f.current_crypto, "DSA/ElGamal-"@)
        }),
{
    lemma_words_differ();
    reveal_strlit("DSA/ElGamal-");
    let fields = split(line, ":"@);
    let bits = match field(fields, 2) {
        Some(b) => b,
        None => "?"@,
    };
    assert(("DSA/ElGamal-"@ + bits).take("DSA/ElGamal-"@.len() as int) =~= "DSA/ElGamal-"@);
}

/// FileVault: on exactly when `fdesetup` reported "FileVault is On", and
/// then ok; otherwise (off, or the command did not run) critical and manual.
pub proof fn lemma_filevault_rules(fdesetup_output: Option<Seq<char>>)
    ensures
        ({
            let f = filevault_spec(filevault_on(fdesetup_output));
            let on = fdesetup_output matches Some(o) && contains(o, "FileVault is On"@);
            &&& f.id == "disk:filevault"@
            &&& on ==> f.severity == "ok"@ && f.remediation == "none"@
            &&& !on ==> f.severity == "critical"@ && f.remediation == "manual"@
        }),
{
}

/// macOS version: ok with nothing to do exactly from major version 14 on;
/// older (or unreadable) versions are a warning for manual update.
pub proof fn lemma_os_version_rules(version: Seq<char>)
    ensures
        os_version_spec(version).name == "macOS "@ + version,
        (os_version_spec(version).severity == "ok"@) <==> major_version(version) >= 14,
        major_version(version) < 14 ==> os_version_spec(version).severity == "warn"@
            && os_version_spec(version).remediation == "manual"@,
{
    lemma_words_differ();
}

/// Git signing: no finding when `gpg.format` is unset; SSH signing is ok;
/// any other format is GPG signing, a warning for manual migration.
pub proof fn lemma_git_signing_rules(output: Seq<char>)
    ensures
        trim(output).len() == 0 <==> git_signing_spec(output) is None,
        trim(output) == "ssh"@ ==> (git_signing_spec(output) matches Some(f) && f.severity == "ok"@),
        trim(output).len() > 0 && trim(output) != "ssh"@ ==> (git_signing_spec(output) matches Some(f)
            && f.severity == "warn"@ && f.remediation == "manual"@),
        git_signing_spec(output) matches Some(f) ==> f.id == "git:signing"@,
{
    reveal_strlit("ssh");
}

/// Known hosts: no finding for a file with no line; a warning when some
/// remembered server presents an RSA or DSA host key; ok otherwise.
pub proof fn lemma_known_hosts_rules(content: Seq<char>)
    ensures
        count_nonblank(lines(content)) == 0 <==> known_hosts_spec(content) is None,
        count_nonblank(lines(content)) > 0 && count_weak_hosts(lines(content)) > 0
            ==> (known_hosts_spec(content) matches Some(f) && f.severity == "warn"@),
        count_nonblank(lines(content)) > 0 && count_weak_hosts(lines(content)) == 0
            ==> (known_hosts_spec(content) matches Some(f) && f.severity == "ok"@),
{
}

/// A certificate is weak exactly when `openssl` shows an RSA key with a
/// printed size between 1 and 2047 bits: never without "rsaEncryption",
/// never at 2048 bits or more.
pub proof fn lemma_weak_rsa_rules(openssl_text: Seq<char>)
    ensures
        !contains(openssl_text, "rsaEncryption"@) ==> !weak_rsa_spec(openssl_text),
        printed_key_bits(lines(openssl_text)) matches Some(b) && b >= 2048 ==> !weak_rsa_spec(
            openssl_text,
        ),
        printed_key_bits(lines(openssl_text)) is None ==> !weak_rsa_spec(openssl_text),
        contains(openssl_text, "rsaEncryption"@) && (printed_key_bits(lines(openssl_text)) matches Some(b)
            && 0 < b < 2048) ==> weak_rsa_spec(openssl_text),
{
}

/// Keychain: no finding without certificates; a warning when any carries a
/// weak RSA key; ok when none does.
pub proof fn lemma_keychain_rules(weak: nat, total: nat)
    ensures
        total == 0 <==> keychain_spec(weak, total) is None,
        total > 0 && weak > 0 ==> (keychain_spec(weak, total) matches Some(f) && f.severity == "warn"@),
        total > 0 && weak == 0 ==> (keychain_spec(weak, total) matches Some(f) && f.severity == "ok"@),
{
}

/// The view of an optional finding.
pub open spec fn finding_opt_view(o: Option<Finding>) -> Option<FindingView> {
    match o {
        Some(x) => Some(x@),
        None => None,
    }
}

/// An optional finding as a sequence of none or one.
pub open spec fn present(o: Option<FindingView>) -> Seq<FindingView> {
    match o {
        Some(x) => seq![x],
        None => Seq::empty(),
    }
}

/// A full scan keeps every finding handed to it, in scanner order: the SSH
/// findings first, then FileVault and the OS version, then each present
/// optional finding and the GPG findings; its length is the sum.
pub proof fn lemma_assembled_keeps_all(
    ssh: Seq<FindingView>,
    filevault: FindingView,
    os: FindingView,
    git: Option<FindingView>,
    known_hosts: Option<FindingView>,
    gpg: Seq<FindingView>,
    wifi: Option<FindingView>,
    keychain: Option<FindingView>,
)
    ensures
        ({
            let r = assembled(
                ssh,
                filevault,
                os,
                present(git),
                present(known_hosts),
                gpg,
                present(wifi),
                present(keychain),
            );
            &&& r.len() == ssh.len() + 2 + present(git).len() + present(known_hosts).len() + gpg.len()
                + present(wifi).len() + present(keychain).len()
            &&& present(git).len() == (if git is Some { 1int } else { 0 })
            &&& forall|i: int| 0 <= i < ssh.len() ==> r[i] == ssh[i]
            &&& r[ssh.len() as int] == filevault
            &&& r[ssh.len() + 1int] == os
            &&& forall|i: int| 0 <= i < gpg.len() ==> #[trigger] r.contains(gpg[i])
            &&& git matches Some(g) ==> r.contains(g)
            &&& known_hosts matches Some(k) ==> r.contains(k)
            &&& wifi matches Some(w) ==> r.contains(w)
            &&& keychain matches Some(c) ==> r.contains(c)
        }),
{
    let g = present(git);
    let k = present(known_hosts);
    let w = present(wifi);
    let c = present(keychain);
    let r = assembled(ssh, filevault, os, g, k, gpg, w, c);
    let a0 = ssh.push(filevault).push(os);
    let a1 = a0 + g;
    let a2 = a1 + k;
    let a3 = a2 + gpg;
    let a4 = a3 + w;
    assert(r == a4 + c);
    if git is Some {
        assert(r[a0.len() as int] == git->Some_0);
    }
    if known_hosts is Some {
        assert(r[a1.len() as int] == known_hosts->Some_0);
    }
    assert forall|i: int| 0 <= i < gpg.len() implies #[trigger] r.contains(gpg[i]) by {
        assert(r[a2.len() + i] == gpg[i]);
    }
    if wifi is Some {
        assert(r[a3.len() as int] == wifi->Some_0);
    }
    if keychain is Some {
        assert(r[a4.len() as int] == keychain->Some_0);
    }
}


/// The tally of a severity is the number of findings that have it: the
/// length of the findings filtered by it, never more than all of them.
pub proof fn lemma_count_is_filter(fs: Seq<FindingView>, severity: Seq<char>)
    ensures
        count_severity(fs, severity) == fs.filter(|f: FindingView| f.severity == severity).len(),
        count_severity(fs, severity) <= fs.len(),
    decreases fs.len(),
{
    reveal(Seq::filter);
    if fs.len() > 0 {
        lemma_count_is_filter(fs.drop_last(), severity);
    }
}

} // verus!
