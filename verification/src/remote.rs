//! Remote bootstrap decisions: the per-workload base path, the advisory
//! lock command, the login-user check, and a verified model of what the
//! launch script does inside the container (idempotent key append, port
//! choice, fast-path reuse, attempt exhaustion).

use crate::errors::SshPodError;
use crate::strutil::{str_eq, trim_spec, trim_str};
use vstd::prelude::*;

verus! {

// ---------------------------------------------------------------------------
// Base path and lock
// ---------------------------------------------------------------------------

/// The state root for one (pod uid, container) pair.
pub open spec fn spec_base_path(uid: Seq<char>, container: Seq<char>) -> Seq<char> {
    ("/tmp/sshpod/")@ + uid + ("/")@ + container
}

/// Build the per-workload base path. The result is a pure function of the
/// pod's stable uid and the container name: a recreated pod gets a fresh
/// directory, and repeated calls agree.
pub fn base_path(uid: &str, container: &str) -> (r: String)
    ensures
        r@ == spec_base_path(uid@, container@),
{
    let mut r = String::from_str("/tmp/sshpod/");
    r.append(uid);
    r.append("/");
    r.append(container);
    r
}

/// The advisory lock command: its success or failure is ignored.
pub fn lock_command(base: &str) -> (r: String)
    ensures
        r@ == ("umask 077; mkdir \"")@ + base@ + ("/lock\"")@,
{
    let mut r = String::from_str("umask 077; mkdir \"");
    r.append(base);
    r.append("/lock\"");
    r
}

/// Where the daemon writes its log, under a given base path.
pub fn sshd_log_path(base: &str) -> (r: String)
    ensures
        r@ == base@ + ("/logs/sshd.log")@,
{
    let mut r = base.to_owned();
    r.append("/logs/sshd.log");
    r
}

// ---------------------------------------------------------------------------
// Login-user check
// ---------------------------------------------------------------------------

/// Whether the container's `id -u` output names root.
pub fn uid_is_root(uid_output: &str) -> (r: bool)
    ensures
        r == (trim_spec(uid_output@) == ("0")@),
{
    let t = trim_str(uid_output);
    str_eq(t.as_str(), "0")
}

/// For a non-root container, the requested login user must equal the
/// container's user; the error names both.
pub fn check_login_user(remote_user_output: &str, requested: &str) -> (r: Result<
    (),
    SshPodError,
>)
    ensures
        trim_spec(remote_user_output@) == requested@ ==> r is Ok,
        trim_spec(remote_user_output@) != requested@ ==> (r matches Err(e)
            && e matches SshPodError::UserMismatch { requested: rq, actual } && rq@ == requested@
            && actual@ == trim_spec(remote_user_output@)),
{
    let t = trim_str(remote_user_output);
    if str_eq(t.as_str(), requested) {
        Result::Ok(())
    } else {
        Result::Err(SshPodError::UserMismatch { requested: requested.to_owned(), actual: t })
    }
}

// ---------------------------------------------------------------------------
// Idempotent authorized_keys append (model of the script's grep || printf)
// ---------------------------------------------------------------------------

pub open spec fn spec_line_count(lines: Seq<Seq<char>>, l: Seq<char>) -> nat
    decreases lines.len(),
{
    if lines.len() == 0 {
        0
    } else {
        spec_line_count(lines.drop_last(), l) + if lines.last() == l {
            1nat
        } else {
            0nat
        }
    }
}

pub open spec fn spec_contains_line(lines: Seq<Seq<char>>, l: Seq<char>) -> bool {
    exists|i: int| 0 <= i < lines.len() && lines[i] == l
}

/// What one successful invocation does to `authorized_keys`: append the key
/// line only when it is not already present verbatim.
pub open spec fn spec_append_key_line(lines: Seq<Seq<char>>, l: Seq<char>) -> Seq<Seq<char>> {
    if spec_contains_line(lines, l) {
        lines
    } else {
        lines.push(l)
    }
}

proof fn lemma_line_count_contains(lines: Seq<Seq<char>>, l: Seq<char>)
    ensures
        spec_contains_line(lines, l) <==> spec_line_count(lines, l) > 0,
    decreases lines.len(),
{
    if lines.len() > 0 {
        lemma_line_count_contains(lines.drop_last(), l);
        if lines.last() == l {
            assert(lines[lines.len() - 1] == l);
        } else {
            assert forall|i: int| 0 <= i < lines.len() && lines[i] == l implies
                spec_contains_line(lines.drop_last(), l) by {
                assert(lines.drop_last()[i] == l);
            }
        }
    }
}

proof fn lemma_line_count_push(lines: Seq<Seq<char>>, l: Seq<char>, x: Seq<char>)
    ensures
        spec_line_count(lines.push(x), l) == spec_line_count(lines, l) + if x == l {
            1nat
        } else {
            0nat
        },
{
    assert(lines.push(x).drop_last() =~= lines);
    assert(lines.push(x).last() == x);
}

/// Appending the same key line twice is the same as appending it once: the
/// second invocation finds the line and leaves the file unchanged.
pub proof fn lemma_append_key_line_idempotent(lines: Seq<Seq<char>>, l: Seq<char>)
    ensures
        spec_append_key_line(spec_append_key_line(lines, l), l) == spec_append_key_line(lines, l),
{
    if !spec_contains_line(lines, l) {
        assert(lines.push(l)[lines.len() as int] == l);
        assert(spec_contains_line(lines.push(l), l));
    }
}

/// Starting from a file that does not hold the key line, any positive
/// number of appends leaves exactly one occurrence; a file that already
/// holds it some number of times is never given another copy.
pub proof fn lemma_append_key_line_count(lines: Seq<Seq<char>>, l: Seq<char>)
    ensures
        spec_line_count(lines, l) == 0 ==> spec_line_count(spec_append_key_line(lines, l), l)
            == 1,
        spec_line_count(lines, l) > 0 ==> spec_append_key_line(lines, l) == lines,
{
    lemma_line_count_contains(lines, l);
    if spec_line_count(lines, l) == 0 {
        lemma_line_count_push(lines, l, l);
    }
}

/// The file's lines after `n` successful invocations in a row.
pub open spec fn spec_append_key_line_n(lines: Seq<Seq<char>>, l: Seq<char>, n: nat) -> Seq<
    Seq<char>,
>
    decreases n,
{
    if n == 0 {
        lines
    } else {
        spec_append_key_line(spec_append_key_line_n(lines, l, (n - 1) as nat), l)
    }
}

/// After any positive number of successful invocations, a file that did
/// not hold the key line holds exactly one copy of it.
pub proof fn lemma_append_key_line_any_number(lines: Seq<Seq<char>>, l: Seq<char>, n: nat)
    requires
        spec_line_count(lines, l) == 0,
        n > 0,
    ensures
        spec_line_count(spec_append_key_line_n(lines, l, n), l) == 1,
    decreases n,
{
    if n == 1 {
        lemma_append_key_line_count(lines, l);
    } else {
        lemma_append_key_line_any_number(lines, l, (n - 1) as nat);
        let prev = spec_append_key_line_n(lines, l, (n - 1) as nat);
        lemma_append_key_line_count(prev, l);
    }
}

/// The executable model of the append: what the file's lines are after one
/// successful invocation.
pub fn append_key_line(lines: &Vec<String>, line: &str) -> (r: Vec<String>)
    ensures
        r.deep_view() == spec_append_key_line(lines.deep_view(), line@),
{
    let ghost lv = lines.deep_view();
    let mut i: usize = 0;
    while i < lines.len()
        invariant
            i <= lines.len(),
            lv == lines.deep_view(),
            lv.len() == lines.len(),
            forall|j: int| 0 <= j < i ==> lv[j] != line@,
        decreases lines.len() - i,
    {
        if str_eq(lines[i].as_str(), line) {
            proof {
                assert(lv[i as int] == line@);
                assert(spec_contains_line(lv, line@));
            }
            return lines.clone();
        }
        i += 1;
    }
    proof {
        assert(!spec_contains_line(lv, line@));
    }
    let mut r = lines.clone();
    let ghost rv = r.deep_view();
    r.push(line.to_owned());
    proof {
        assert(rv =~= lv);
        assert(r.deep_view() =~= lv.push(line@));
    }
    r
}

// ---------------------------------------------------------------------------
// Daemon launch model
// ---------------------------------------------------------------------------

/// The number of port attempts the launcher makes before giving up.
pub const SSHD_PORT_ATTEMPTS: usize = 30;

/// The port the script derives from two random bytes: uniformly placed in
/// `[20000, 65000)`.
pub fn rand_port(raw: u16) -> (r: u16)
    ensures
        r == 20000 + ((raw as int) % 45000),
        20000 <= r < 65000,
{
    20000 + raw % 45000
}

pub open spec fn spec_first_port(attempts: Seq<Option<u16>>) -> Option<u16>
    decreases attempts.len(),
{
    if attempts.len() == 0 {
        Option::None
    } else if attempts[0] is Some {
        attempts[0]
    } else {
        spec_first_port(attempts.drop_first())
    }
}

/// What the launch script prints: the cached port while the recorded
/// daemon is alive (fast path), else the port of the first attempt that
/// produced a live daemon, else nothing.
pub open spec fn spec_launch(
    pid_alive: bool,
    cached: Option<u16>,
    attempts: Seq<Option<u16>>,
) -> Option<u16> {
    if pid_alive && cached is Some {
        cached
    } else {
        spec_first_port(attempts)
    }
}

proof fn lemma_first_port_at(attempts: Seq<Option<u16>>, i: int)
    requires
        0 <= i < attempts.len(),
        forall|j: int| 0 <= j < i ==> attempts[j] is None,
        attempts[i] is Some,
    ensures
        spec_first_port(attempts) == attempts[i],
    decreases i,
{
    if i > 0 {
        assert(forall|j: int|
            0 <= j < i - 1 ==> attempts.drop_first()[j] == attempts[j + 1]);
        lemma_first_port_at(attempts.drop_first(), i - 1);
    }
}

proof fn lemma_first_port_none(attempts: Seq<Option<u16>>)
    requires
        forall|j: int| 0 <= j < attempts.len() ==> attempts[j] is None,
    ensures
        spec_first_port(attempts) is None,
    decreases attempts.len(),
{
    if attempts.len() > 0 {
        assert(forall|j: int|
            0 <= j < attempts.len() - 1 ==> attempts.drop_first()[j] == attempts[j + 1]);
        lemma_first_port_none(attempts.drop_first());
    }
}

/// While the recorded daemon is still alive and a port is cached, the
/// launcher returns that port, whatever fresh attempts would have done:
/// re-running it cannot change the port.
pub proof fn lemma_launch_reuses_port(
    p: u16,
    attempts1: Seq<Option<u16>>,
    attempts2: Seq<Option<u16>>,
)
    ensures
        spec_launch(true, Option::Some(p), attempts1) == Option::Some(p),
        spec_launch(true, Option::Some(p), attempts1) == spec_launch(
            true,
            Option::Some(p),
            attempts2,
        ),
{
}

/// Without a live recorded daemon, a full round of failed attempts leaves
/// the launcher empty-handed.
pub proof fn lemma_launch_exhaustion(
    pid_alive: bool,
    cached: Option<u16>,
    attempts: Seq<Option<u16>>,
)
    requires
        !(pid_alive && cached is Some),
        forall|j: int| 0 <= j < attempts.len() ==> attempts[j] is None,
    ensures
        spec_launch(pid_alive, cached, attempts) is None,
{
    lemma_first_port_none(attempts);
}

/// Decide what the launcher reports, given the fast-path state and the
/// outcome of each of the thirty port attempts (the port, when the daemon
/// came up on it). Exhaustion is the start-failure error.
#[verifier::loop_isolation(false)]
pub fn sshd_launch_outcome(
    pid_alive: bool,
    cached_port: &Option<u16>,
    attempts: &Vec<Option<u16>>,
    log_path: &str,
) -> (r: Result<u16, SshPodError>)
    requires
        attempts@.len() == SSHD_PORT_ATTEMPTS,
    ensures
        match spec_launch(pid_alive, *cached_port, attempts@) {
            Option::Some(p) => r matches Ok(v) && v == p,
            Option::None => r matches Err(e) && e matches SshPodError::SshdStartFailed {
                log_path: lp,
                detail,
            } && lp@ == log_path@ && detail@ == ("sshd did not start")@,
        },
{
    if pid_alive {
        if let Option::Some(p) = cached_port {
            return Result::Ok(*p);
        }
    }
    let mut i: usize = 0;
    while i < attempts.len()
        invariant
            i <= attempts@.len(),
            forall|j: int| 0 <= j < i ==> attempts@[j] is None,
        decreases attempts@.len() - i,
    {
        if let Option::Some(p) = attempts[i] {
            proof {
                lemma_first_port_at(attempts@, i as int);
            }
            return Result::Ok(p);
        }
        i += 1;
    }
    proof {
        lemma_first_port_none(attempts@);
    }
    Result::Err(
        SshPodError::SshdStartFailed {
            log_path: log_path.to_owned(),
            detail: String::from_str("sshd did not start"),
        },
    )
}

// ---------------------------------------------------------------------------
// The launch script
// ---------------------------------------------------------------------------

/// The script sent to the container as stdin of `sh -s -- BASE LOGIN_USER
/// PUBKEY_LINE`. It materialises the base directories, appends the key line
/// idempotently (the model above), reuses a live daemon's cached port, and
/// otherwise tries up to thirty random loopback ports, printing the chosen
/// port as its sole stdout.
pub const START_SSHD_SCRIPT: &'static str = "#!/bin/sh
set -eu

BASE=\"$1\"
LOGIN_USER=\"$2\"
PUBKEY_LINE=\"$3\"
SSHD=\"$BASE/bundle/sshd\"
SSHKEYGEN=\"$BASE/bundle/ssh-keygen\"
ENV_FILE=\"$BASE/environment\"

umask 077
mkdir -p \"$BASE\" \"$BASE/hostkeys\" \"$BASE/logs\"
chmod 700 \"$BASE\" \"$BASE/hostkeys\" \"$BASE/logs\"
BASE_PARENT=\"$(dirname \"$BASE\")\"
TOP_DIR=\"$(dirname \"$BASE_PARENT\")\"
chmod 711 \"$TOP_DIR\" \"$BASE_PARENT\"

[ -f \"$BASE/authorized_keys\" ] || : > \"$BASE/authorized_keys\"
grep -qxF \"$PUBKEY_LINE\" \"$BASE/authorized_keys\" || printf '%s\\n' \"$PUBKEY_LINE\" >> \"$BASE/authorized_keys\"
chmod 600 \"$BASE/authorized_keys\"
[ -z \"$LOGIN_USER\" ] || chown \"$LOGIN_USER\":\"$LOGIN_USER\" \"$BASE\" \"$BASE/authorized_keys\" 2>/dev/null || true

mkdir -p /tmp/empty
chmod 755 /tmp/empty

[ -f \"$BASE/hostkeys/ssh_host_ed25519_key\" ] || \"$SSHKEYGEN\" -t ed25519 -f \"$BASE/hostkeys/ssh_host_ed25519_key\" -N '' >/dev/null
chmod 600 \"$BASE/hostkeys/\"*

[ -f \"$BASE/sshd.pid\" ] && kill -0 \"$(cat \"$BASE/sshd.pid\")\" 2>/dev/null && [ -f \"$BASE/sshd.port\" ] && { cat \"$BASE/sshd.port\"; exit 0; } || true

rand_port() {
  val=\"$(od -An -N2 -tu2 /dev/urandom | tr -d ' ')\"
  echo $((20000 + (val % 45000)))
}

REMOTE_PATH=\"${PATH:-/usr/bin:/bin}\"
ENV_EXPORTS=\"$(env | awk -F= '/^KUBERNETES_/ {print $1}')\"
USER_HOME=\"$(getent passwd \"$LOGIN_USER\" 2>/dev/null | awk -F: '{print $6}')\"

i=0
while [ $i -lt 30 ]; do
  i=$((i+1))
  PORT=\"$(rand_port)\"

  { [ -f \"$BASE/bundle/sshd_config.in\" ] && sed -e \"s|__BASE__|$BASE|g\" -e \"s|__PORT__|$PORT|g\" \"$BASE/bundle/sshd_config.in\" > \"$BASE/sshd_config\"; } || cat > \"$BASE/sshd_config\" <<EOF
ListenAddress 127.0.0.1
Port $PORT
HostKey $BASE/hostkeys/ssh_host_ed25519_key
PidFile $BASE/sshd.pid
AuthorizedKeysFile $BASE/authorized_keys
PubkeyAuthentication yes
StrictModes no
PasswordAuthentication no
KbdInteractiveAuthentication no
ChallengeResponseAuthentication no
PermitEmptyPasswords no
AllowAgentForwarding yes
AllowTcpForwarding yes
X11Forwarding no
Subsystem sftp internal-sftp
LogLevel VERBOSE
PermitUserEnvironment yes
EOF

  printf 'SetEnv PATH=%s\\n' \"$REMOTE_PATH\" >> \"$BASE/sshd_config\"
  for key in $ENV_EXPORTS; do
    val=\"$(printenv \"$key\" || true)\"
    printf 'SetEnv %s=%s\\n' \"$key\" \"$val\" >> \"$BASE/sshd_config\"
  done
  [ -z \"${KUBECONFIG:-}\" ] || printf 'SetEnv KUBECONFIG=%s\\n' \"$KUBECONFIG\" >> \"$BASE/sshd_config\"

  [ -n \"$USER_HOME\" ] && [ -d \"$USER_HOME\" ] && {
    mkdir -p \"$USER_HOME/.ssh\"
    {
      printf 'PATH=%s\\n' \"$REMOTE_PATH\"
      for key in $ENV_EXPORTS; do
        val=\"$(printenv \"$key\" || true)\"
        printf '%s=%s\\n' \"$key\" \"$val\"
      done
      [ -z \"${KUBECONFIG:-}\" ] || printf 'KUBECONFIG=%s\\n' \"$KUBECONFIG\"
    } > \"$USER_HOME/.ssh/environment\"
    chmod 700 \"$USER_HOME/.ssh\"
    chmod 600 \"$USER_HOME/.ssh/environment\"
    [ -z \"$LOGIN_USER\" ] || chown \"$LOGIN_USER\":\"$LOGIN_USER\" \"$USER_HOME/.ssh\" \"$USER_HOME/.ssh/environment\" 2>/dev/null || true
  } || true

  {
    printf 'PATH=%s\\n' \"$REMOTE_PATH\"
    for key in $ENV_EXPORTS; do
      val=\"$(printenv \"$key\" || true)\"
      printf '%s=%s\\n' \"$key\" \"$val\"
    done
    [ -z \"${KUBECONFIG:-}\" ] || printf 'KUBECONFIG=%s\\n' \"$KUBECONFIG\"
  } > \"$ENV_FILE\"
  chmod 600 \"$ENV_FILE\"
  [ -z \"$LOGIN_USER\" ] || chown \"$LOGIN_USER\":\"$LOGIN_USER\" \"$ENV_FILE\" 2>/dev/null || true

  chmod 600 \"$BASE/sshd_config\"
  rm -f \"$BASE/sshd.pid\"
  \"$SSHD\" -f \"$BASE/sshd_config\" -E \"$BASE/logs/sshd.log\" </dev/null >/dev/null 2>&1 || true
  j=0
  while [ $j -lt 10 ]; do
    { [ -f \"$BASE/sshd.pid\" ] && kill -0 \"$(cat \"$BASE/sshd.pid\")\" 2>/dev/null; } && {
      echo \"$PORT\" > \"$BASE/sshd.port\"
      chmod 600 \"$BASE/sshd.pid\" \"$BASE/sshd.port\"
      echo \"$PORT\"
      exit 0
    } || true
    j=$((j+1))
    sleep 1
  done
done

echo \"sshd did not start\" >&2
exit 1
";

// ---------------------------------------------------------------------------
// Port output parsing
// ---------------------------------------------------------------------------

pub open spec fn spec_is_digit(c: char) -> bool {
    48 <= c as int <= 57
}

pub open spec fn spec_all_digits(s: Seq<char>) -> bool {
    forall|i: int| 0 <= i < s.len() ==> spec_is_digit(#[trigger] s[i])
}

pub open spec fn spec_digits_value(s: Seq<char>) -> int
    decreases s.len(),
{
    if s.len() == 0 {
        0
    } else {
        spec_digits_value(s.drop_last()) * 10 + (s.last() as int - 48)
    }
}

/// The port the script's single stdout line denotes, when it is a decimal
/// number that fits a 16-bit unsigned integer.
pub open spec fn spec_parse_port(out: Seq<char>) -> Option<u16> {
    let t = trim_spec(out);
    if t.len() > 0 && spec_all_digits(t) && spec_digits_value(t) <= 65535 {
        Option::Some(spec_digits_value(t) as u16)
    } else {
        Option::None
    }
}

proof fn lemma_digits_value_nonneg(s: Seq<char>)
    requires
        spec_all_digits(s),
    ensures
        spec_digits_value(s) >= 0,
    decreases s.len(),
{
    if s.len() > 0 {
        assert(forall|i: int|
            0 <= i < s.len() - 1 ==> s.drop_last()[i] == s[i]);
        lemma_digits_value_nonneg(s.drop_last());
    }
}

proof fn lemma_digits_value_prefix(s: Seq<char>, i: int)
    requires
        spec_all_digits(s),
        0 <= i <= s.len(),
    ensures
        spec_digits_value(s.take(i)) <= spec_digits_value(s),
    decreases s.len() - i,
{
    if i < s.len() {
        let p = s.take(i);
        let q = s.take(i + 1);
        assert(forall|j: int| 0 <= j < p.len() ==> p[j] == s[j]);
        assert(spec_all_digits(p));
        assert(q.drop_last() =~= p);
        assert(q.last() == s[i]);
        lemma_digits_value_nonneg(p);
        assert(spec_digits_value(q) == spec_digits_value(p) * 10 + (s[i] as int - 48));
        lemma_digits_value_prefix(s, i + 1);
    } else {
        assert(s.take(i) =~= s);
    }
}

/// Read the launcher's stdout as a port number; anything else is a
/// start-failure report quoting the output.
#[verifier::loop_isolation(false)]
pub fn parse_port(output: &str, log_path: &str) -> (r: Result<u16, SshPodError>)
    ensures
        match spec_parse_port(output@) {
            Option::Some(p) => r matches Ok(v) && v == p,
            Option::None => r matches Err(e) && e matches SshPodError::SshdStartFailed {
                log_path: lp,
                detail,
            } && lp@ == log_path@ && detail@ == ("unexpected sshd port output: ")@ + output@,
        },
{
    let t = trim_str(output);
    let n = t.unicode_len();
    let mut value: u32 = 0;
    let mut ok = n > 0;
    let mut i: usize = 0;
    while i < n
        invariant
            i <= n,
            n == t@.len(),
            ok == (n > 0 && spec_all_digits(t@.take(i as int)) && spec_digits_value(
                t@.take(i as int),
            ) <= 65535),
            ok ==> value == spec_digits_value(t@.take(i as int)),
            value <= 65535,
        decreases n - i,
    {
        let c = t.get_char(i);
        let ghost pre = t@.take(i as int);
        let ghost pre1 = t@.take(i as int + 1);
        proof {
            assert(pre1.drop_last() =~= pre);
            assert(pre1.last() == t@[i as int]);
            assert(forall|j: int| 0 <= j < pre.len() ==> pre[j] == pre1[j]);
        }
        if ok && c >= '0' && c <= '9' {
            proof {
                lemma_digits_value_nonneg(pre);
            }
            let d: u32 = c as u32 - 48;
            let next: u32 = value * 10 + d;
            if next > 65535 {
                ok = false;
            } else {
                value = next;
            }
        } else {
            proof {
                if ok {
                    assert(!spec_is_digit(pre1[i as int]));
                }
            }
            ok = false;
        }
        proof {
            if !spec_all_digits(pre) {
                let j = choose|j: int| 0 <= j < pre.len() && !spec_is_digit(pre[j]);
                assert(!spec_is_digit(pre1[j]));
            }
        }
        i += 1;
    }
    proof {
        assert(t@.take(n as int) =~= t@);
        assert(t@ == trim_spec(output@));
    }
    if ok {
        proof {
            assert(spec_parse_port(output@) == Option::Some(value as u16));
        }
        Result::Ok(value as u16)
    } else {
        let mut detail = String::from_str("unexpected sshd port output: ");
        detail.append(output);
        Result::Err(SshPodError::SshdStartFailed { log_path: log_path.to_owned(), detail })
    }
}

} // verus!
