//! An IMAP server to capture mail from: how to connect to it, which
//! environment variable holds its password, and the account settings that
//! melib takes for it.
use vstd::prelude::*;
use vstd::string::StrSliceExecFns;
use crate::text::{decimal, push_char, push_decimal};

verus! {

/// How to secure the connection.
#[derive(Debug, Clone, Copy, PartialEq, Eq, Structural)]
#[allow(non_camel_case_types)]
pub enum ConnectMethod {
    STARTTLS,
    TLS,
}

/// An IMAP server and the account on it.
#[derive(Debug)]
pub struct IMAPServer {
    pub id: String,
    pub domain: String,
    pub port: u16,
    pub username: String,
    pub method: ConnectMethod,
}

/// ASCII lower-case letters made upper-case; every other character kept
/// (`char::to_ascii_uppercase`).
pub open spec fn ascii_upper(c: char) -> char {
    if 'a' <= c && c <= 'z' {
        (((c as u32) - 32) as u8) as char
    } else {
        c
    }
}

/// `<ID>_PASSWORD`, with the server's id in ASCII upper case.
pub open spec fn password_variable_text(id: Seq<char>) -> Seq<char> {
    id.map_values(|c: char| ascii_upper(c)) + seq!['_', 'P', 'A', 'S', 'S', 'W', 'O', 'R', 'D']
}

/// The variable name is the id, letter for letter, then `_PASSWORD`: each
/// ASCII lower-case letter `a` to `z` of the id stands 32 code points lower
/// (its upper-case letter), every other character stays, and no ASCII
/// lower-case letter is left.
pub proof fn lemma_password_variable_upper(id: Seq<char>)
    ensures
        password_variable_text(id).len() == id.len() + 9,
        forall|i: int|
            0 <= i < id.len() ==> {
                let c = id[i];
                let u = #[trigger] password_variable_text(id)[i];
                &&& ('a' <= c && c <= 'z') ==> u as u32 + 32 == c as u32
                &&& !('a' <= c && c <= 'z') ==> u == c
            },
        forall|i: int|
            0 <= i < password_variable_text(id).len() ==> !('a' <= #[trigger] password_variable_text(
                id,
            )[i] && password_variable_text(id)[i] <= 'z'),
{
    let v = password_variable_text(id);
    let tail = seq!['_', 'P', 'A', 'S', 'S', 'W', 'O', 'R', 'D'];
    assert forall|i: int| 0 <= i < id.len() implies {
        let c = id[i];
        let u = #[trigger] v[i];
        &&& ('a' <= c && c <= 'z') ==> u as u32 + 32 == c as u32
        &&& !('a' <= c && c <= 'z') ==> u == c
    } by {
        let c = id[i];
        assert(v[i] == ascii_upper(c));
        if 'a' <= c && c <= 'z' {
            let k = c as u32;
            assert(97 <= k <= 122);
            assert(((k - 32) as u8) as u32 == k - 32);
        }
    }
    assert forall|i: int| 0 <= i < v.len() implies !('a' <= #[trigger] v[i] && v[i] <= 'z') by {
        if i < id.len() {
            let c = id[i];
            assert(v[i] == ascii_upper(c));
            if 'a' <= c && c <= 'z' {
                let k = c as u32;
                assert(((k - 32) as u8) as u32 == k - 32);
            }
        } else {
            assert(v[i] == tail[i - id.len()]);
        }
    }
}

/// The keys of the account settings, in order.
pub open spec fn setting_keys() -> Seq<Seq<char>> {
    seq![
        seq!['s', 'e', 'r', 'v', 'e', 'r', '_', 'h', 'o', 's', 't', 'n', 'a', 'm', 'e'],
        seq!['s', 'e', 'r', 'v', 'e', 'r', '_', 'u', 's', 'e', 'r', 'n', 'a', 'm', 'e'],
        seq!['s', 'e', 'r', 'v', 'e', 'r', '_', 'p', 'a', 's', 's', 'w', 'o', 'r', 'd'],
        seq!['s', 'e', 'r', 'v', 'e', 'r', '_', 'p', 'o', 'r', 't'],
    ]
}

impl IMAPServer {
    /// The name of the environment variable that holds the password of this
    /// server's account, for example `GMAIL_PASSWORD` for the id `gmail`.
    pub fn password_variable(&self) -> (v: String)
        ensures
            v@ == password_variable_text(self.id@),
    {
        let id = self.id.as_str();
        let n = id.unicode_len();
        let mut v = String::new();
        let mut i: usize = 0;
        while i < n
            invariant
                n == id@.len(),
                id@ == self.id@,
                0 <= i <= n,
                v@ == id@.take(i as int).map_values(|c: char| ascii_upper(c)),
            decreases n - i,
        {
            let c = id.get_char(i);
            let u = if 'a' <= c && c <= 'z' {
                ((c as u32 - 32) as u8) as char
            } else {
                c
            };
            push_char(&mut v, u);
            assert(id@.take(i + 1).map_values(|c: char| ascii_upper(c)) =~= id@.take(
                i as int,
            ).map_values(|c: char| ascii_upper(c)).push(ascii_upper(c)));
            i = i + 1;
        }
        assert(id@.take(n as int) == id@);
        v.append("_PASSWORD");
        proof {
            reveal_strlit("_PASSWORD");
            assert(v@ =~= password_variable_text(self.id@));
        }
        v
    }

    /// The account settings that melib's IMAP backend reads, as
    /// (key, value) pairs: host name, user name, password and port.
    pub fn meli_settings(&self, password: &str) -> (s: Vec<(String, String)>)
        ensures
            s@.len() == 4,
            forall|i: int| 0 <= i < 4 ==> (#[trigger] s@[i]).0@ == setting_keys()[i],
            s@[0].1@ == self.domain@,
            s@[1].1@ == self.username@,
            s@[2].1@ == password@,
            s@[3].1@ == decimal(self.port as nat),
    {
        let mut s: Vec<(String, String)> = Vec::new();
        let mut k0 = String::new();
        k0.append("server_hostname");
        let mut k1 = String::new();
        k1.append("server_username");
        let mut k2 = String::new();
        k2.append("server_password");
        let mut k3 = String::new();
        k3.append("server_port");
        let mut pw = String::new();
        pw.append(password);
        let mut port = String::new();
        push_decimal(&mut port, self.port as u64);
        proof {
            reveal_strlit("server_hostname");
            reveal_strlit("server_username");
            reveal_strlit("server_password");
            reveal_strlit("server_port");
            assert(k0@ =~= setting_keys()[0]);
            assert(k1@ =~= setting_keys()[1]);
            assert(k2@ =~= setting_keys()[2]);
            assert(k3@ =~= setting_keys()[3]);
            assert(port@ =~= decimal(self.port as nat));
        }
        s.push((k0, self.domain.clone()));
        s.push((k1, self.username.clone()));
        s.push((k2, pw));
        s.push((k3, port));
        s
    }
}

} // verus!
