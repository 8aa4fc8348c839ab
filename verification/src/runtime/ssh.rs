use super::cmd::collect_output;
use crate::failure::{Failure, FailureView, RemoteSpecFault};
use crate::text::{
    chars_of, copy_str, decimal, decimal_string, joined, split, split_on, str_eq, texts,
};
use std::borrow::Cow;
use vstd::prelude::*;
use vstd::string::StringExecFns;

verus! {

/// A remote shell: where it is reached, as whom, and with which key.
#[derive(Debug)]
pub struct SSHConnection {
    pub host: String,
    pub port: u16,
    pub user: String,
    /// The path of the file that holds the key.
    pub key_file: String,
    pub passphrase: Option<String>,
}

/// Whether `c` is a decimal digit.
pub open spec fn is_digit(c: char) -> bool {
    '0' <= c && c <= '9'
}

/// The number that the decimal digits `s` stand for.
pub open spec fn number(s: Seq<char>) -> nat
    decreases s.len(),
{
    if s.len() == 0 {
        0
    } else {
        number(s.drop_last()) * 10 + (s.last() as nat - '0' as nat) as nat
    }
}

/// Whether all characters of `s` are decimal digits.
pub open spec fn all_digits(s: Seq<char>) -> bool {
    forall|i: int| 0 <= i < s.len() ==> is_digit(#[trigger] s[i])
}

/// The port that `s` stands for: a number of at most 65535, written in one or more
/// decimal digits, with or without a `+` before them.
pub open spec fn parsed_port(s: Seq<char>) -> Option<u16> {
    let digits = if s.len() > 0 && s[0] == '+' {
        s.skip(1)
    } else {
        s
    };
    if digits.len() > 0 && all_digits(digits) && number(digits) <= 65535 {
        Some(number(digits) as u16)
    } else {
        None
    }
}

/// A longer run of digits stands for no smaller number.
pub proof fn lemma_number_grows(s: Seq<char>, k: int)
    requires
        0 <= k <= s.len(),
        all_digits(s),
    ensures
        number(s.take(k)) <= number(s),
    decreases s.len() - k,
{
    if k < s.len() {
        lemma_number_grows(s, k + 1);
        assert(s.take(k + 1).drop_last() == s.take(k));
    } else {
        assert(s.take(k) == s);
    }
}

/// The port that `s` stands for.
pub fn parse_port(s: &str) -> (r: Option<u16>)
    ensures
        r == parsed_port(s@),
{
    let chars = chars_of(s);
    let from: usize = if chars.len() > 0 && chars[0] == '+' {
        1
    } else {
        0
    };
    let ghost digits = chars@.skip(from as int);
    assert(chars@.skip(0) =~= chars@);
    if chars.len() == from {
        return None;
    }
    assert(digits.take(0) =~= Seq::<char>::empty());
    let mut value: u32 = 0;
    let mut i: usize = from;
    while i < chars.len()
        invariant
            from <= i <= chars.len(),
            digits == chars@.skip(from as int),
            digits == (if s@.len() > 0 && s@[0] == '+' {
                s@.skip(1)
            } else {
                s@
            }),
            forall|j: int| 0 <= j < i - from ==> is_digit(#[trigger] digits[j]),
            value == number(digits.take(i - from)),
            value <= 65535,
        decreases chars.len() - i,
    {
        let c = chars[i];
        assert(digits[i - from] == c);
        if !('0' <= c && c <= '9') {
            assert(!is_digit(digits[i - from]));
            return None;
        }
        let d: u32 = c as u32 - '0' as u32;
        let next: u32 = value * 10 + d;
        proof {
            assert(digits.take(i - from + 1).drop_last() == digits.take(i - from));
            assert(digits.take(i - from + 1).last() == c);
            assert(next == number(digits.take(i - from + 1)));
        }
        if next > 65535 {
            proof {
                if all_digits(digits) {
                    lemma_number_grows(digits, i - from + 1);
                }
            }
            return None;
        }
        value = next;
        i += 1;
    }
    assert(digits.take(digits.len() as int) == digits);
    Some(value as u16)
}

/// A connection string taken apart.
pub struct Target {
    pub user: Seq<char>,
    pub host: Seq<char>,
    pub port: u16,
}

/// Takes the host and the port out of `host[:port]`; the port is 22 where none is
/// given.
pub open spec fn parsed_host(s: Seq<char>) -> Result<(Seq<char>, u16), RemoteSpecFault> {
    let parts = split(s, ':');
    if parts.len() == 1 {
        Ok((parts[0], 22u16))
    } else if parts.len() == 2 {
        match parsed_port(parts[1]) {
            Some(port) => Ok((parts[0], port)),
            None => Err(RemoteSpecFault::BadPort),
        }
    } else {
        Err(RemoteSpecFault::TooManyColons)
    }
}

/// Takes a connection string `[user@]host[:port]` apart; the user is `local_user` where
/// none is given.
pub open spec fn parsed_target(s: Seq<char>, local_user: Seq<char>) -> Result<Target, RemoteSpecFault> {
    let parts = split(s, '@');
    if s.len() == 0 {
        Err(RemoteSpecFault::Empty)
    } else if parts.len() > 2 {
        Err(RemoteSpecFault::TooManyAt)
    } else {
        let user = if parts.len() == 2 {
            parts[0]
        } else {
            local_user
        };
        match parsed_host(parts.last()) {
            Ok((host, port)) => Ok(Target { user, host, port }),
            Err(fault) => Err(fault),
        }
    }
}

/// A character that a POSIX shell reads as it stands: an ASCII letter or digit, or one
/// of `-_=/,.+`.
pub open spec fn is_plain(c: char) -> bool {
    ('a' <= c && c <= 'z') || ('A' <= c && c <= 'Z') || ('0' <= c && c <= '9') || c == '-' || c
        == '_' || c == '=' || c == '/' || c == ',' || c == '.' || c == '+'
}

/// `s` from position `i` on as it stands between single quotes: each `'` and each `!`
/// stands outside the quotes, behind a backslash.
pub open spec fn quoted_from(s: Seq<char>, i: int) -> Seq<char>
    decreases s.len() - i,
{
    if !(0 <= i < s.len()) {
        Seq::empty()
    } else if s[i] == '\'' || s[i] == '!' {
        seq!['\'', '\\', s[i], '\''] + quoted_from(s, i + 1)
    } else {
        seq![s[i]] + quoted_from(s, i + 1)
    }
}

/// `s` as one word for a POSIX shell: `s` itself where it is not empty and all its
/// characters are plain, else `s` between single quotes.
pub open spec fn posix_quoted(s: Seq<char>) -> Seq<char> {
    if s.len() > 0 && (forall|i: int| 0 <= i < s.len() ==> is_plain(#[trigger] s[i])) {
        s
    } else {
        seq!['\''] + quoted_from(s, 0) + seq!['\'']
    }
}

/// `shell_escape::unix::escape` hands its argument back where it is not empty and holds
/// only ASCII letters, digits and `-_=/,.+`. Else it puts it between single quotes, and
/// in place of each `'` and each `!` it closes the quotes, writes a backslash and the
/// character, and opens them again.
#[verifier::external_body]
pub(crate) fn shell_quote(s: &str) -> (r: String)
    ensures
        r@ == posix_quoted(s@),
{
    shell_escape::unix::escape(Cow::Borrowed(s)).into_owned()
}

/// The words `app` and `args`, each as one word for a POSIX shell, with `sudo` before
/// them where it is asked for.
pub open spec fn remote_line(with_sudo: bool, app: Seq<char>, args: Seq<Seq<char>>) -> Seq<char> {
    let words = (seq![app] + args).map_values(|w: Seq<char>| posix_quoted(w));
    (if with_sudo {
        "sudo "@
    } else {
        Seq::empty()
    }) + joined(words, " "@, words.len() as int)
}

impl SSHConnection {
    /// The connection that `s` describes, a string `[user@]host[:port]`. The user is
    /// `local_user` where `s` names none, the port 22 where it names none. `key_file`
    /// is the path of the key file, or nothing where that file does not exist.
    pub fn from_str(
        s: &str,
        local_user: &str,
        key_file: Option<String>,
        passphrase: Option<String>,
    ) -> (r: Result<SSHConnection, Failure>)
        ensures
            match parsed_target(s@, local_user@) {
                Err(fault) => r matches Err(e) && e@ == (FailureView::BadRemoteSpec {
                    fault,
                }),
                Ok(target) => match key_file {
                    None => r matches Err(e) && e@ == (FailureView::BadRemoteSpec {
                        fault: RemoteSpecFault::MissingKey,
                    }),
                    Some(path) => {
                        &&& r matches Ok(c)
                        &&& c.user@ == target.user
                        &&& c.host@ == target.host
                        &&& c.port == target.port
                        &&& c.key_file == path
                        &&& c.passphrase == passphrase
                    },
                },
            },
    {
        if s.is_empty() {
            return Err(Failure::BadRemoteSpec { fault: RemoteSpecFault::Empty });
        }
        let parts = split_on(s, '@');
        if parts.len() > 2 {
            return Err(Failure::BadRemoteSpec { fault: RemoteSpecFault::TooManyAt });
        }
        let last = parts.len() - 1;
        assert(texts(parts@)[last as int] == parts@[last as int]@);
        assert(texts(parts@)[0] == parts@[0]@);
        let user = if parts.len() == 2 {
            parts[0].clone()
        } else {
            copy_str(local_user)
        };
        let host_parts = split_on(parts[last].as_str(), ':');
        assert(texts(host_parts@)[0] == host_parts@[0]@);
        let port: u16 = if host_parts.len() == 1 {
            22
        } else if host_parts.len() == 2 {
            assert(texts(host_parts@)[1] == host_parts@[1]@);
            match parse_port(host_parts[1].as_str()) {
                Some(port) => port,
                None => {
                    return Err(Failure::BadRemoteSpec { fault: RemoteSpecFault::BadPort });
                },
            }
        } else {
            return Err(Failure::BadRemoteSpec { fault: RemoteSpecFault::TooManyColons });
        };
        let host = host_parts[0].clone();
        match key_file {
            None => Err(Failure::BadRemoteSpec { fault: RemoteSpecFault::MissingKey }),
            Some(key_file) => Ok(SSHConnection { host, port, user, key_file, passphrase }),
        }
    }

    /// The line that runs `app` with `args` in the remote shell.
    pub fn create_command_line(with_sudo: bool, app: &str, args: &Vec<String>) -> (line: String)
        ensures
            line@ == remote_line(with_sudo, app@, texts(args@)),
    {
        let ghost words = (seq![app@] + texts(args@)).map_values(|w: Seq<char>| posix_quoted(w));
        let mut command = String::new();
        if with_sudo {
            command.append("sudo ");
        }
        let ghost prefix = command@;
        command.append(shell_quote(app).as_str());
        let mut k: usize = 0;
        while k < args.len()
            invariant
                k <= args.len(),
                words == (seq![app@] + texts(args@)).map_values(|w: Seq<char>| posix_quoted(w)),
                command@ == prefix + joined(words, " "@, k + 1),
            decreases args.len() - k,
        {
            command.append(" ");
            command.append(shell_quote(args[k].as_str()).as_str());
            proof {
                assert(words[k + 1] == posix_quoted(args@[k as int]@));
                assert(command@ =~= prefix + (joined(words, " "@, k + 1) + " "@ + words[k + 1]));
            }
            k += 1;
        }
        command
    }

    /// What a command that ran in the remote shell has put out, as its caller sees it.
    pub fn execute(exit_status: u32, stdout: &str, stderr: &str) -> (content: String)
        ensures
            content@ == joined(
                super::cmd::output_parts(exit_status as int, stdout@, stderr@),
                "\n"@,
                super::cmd::output_parts(exit_status as int, stdout@, stderr@).len() as int,
            ),
    {
        collect_output(exit_status as i64, stdout, stderr)
    }

    /// Whether the trial of the connection went well. The trial runs `echo robopages`:
    /// it went well where the exit code is 0 and the output is `robopages` and a line
    /// feed.
    pub fn test_connection(exit_status: u32, stdout: &str) -> (r: Result<(), Failure>)
        ensures
            match r {
                Ok(()) => exit_status == 0 && stdout@ == "robopages\n"@,
                Err(e) => if exit_status != 0 {
                    e@ == (FailureView::RemoteTestFailed { exit_code: exit_status as i64 })
                } else {
                    stdout@ != "robopages\n"@ && e@ == (FailureView::RemoteTestOutput {
                        output: stdout@,
                    })
                },
            },
    {
        if exit_status != 0 {
            Err(Failure::RemoteTestFailed { exit_code: exit_status as i64 })
        } else if !str_eq(stdout, "robopages\n") {
            Err(Failure::RemoteTestOutput { output: copy_str(stdout) })
        } else {
            Ok(())
        }
    }

    /// The connection as `user@host:port`.
    pub open spec fn shown(&self) -> Seq<char> {
        self.user@ + "@"@ + self.host@ + ":"@ + decimal(self.port as int)
    }

    /// The connection as `user@host:port`.
    pub fn to_string(&self) -> (s: String)
        ensures
            s@ == self.shown(),
    {
        let mut s = self.user.clone();
        s.append("@");
        s.append(self.host.as_str());
        s.append(":");
        s.append(decimal_string(self.port as i64).as_str());
        s
    }
}

} // verus!
