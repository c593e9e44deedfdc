//! The names of privileges.
use vstd::prelude::*;

use crate::util::hex::{byte_text, push_byte};
use crate::util::text::comma_separated;

verus! {

/// The name of bit `i` of the privileges, counted from the highest bit of the first
/// byte (GPCS v2.3.1 Tables 11-7 to 11-9); the last four bits have none.
pub open spec fn privilege_name(i: int) -> Option<Seq<char>> {
    if i == 0 {
        Some("SecurityDomain"@)
    } else if i == 1 {
        Some("DAPVerification"@)
    } else if i == 2 {
        Some("DelegatedManagement"@)
    } else if i == 3 {
        Some("CardLock"@)
    } else if i == 4 {
        Some("CardTerminate"@)
    } else if i == 5 {
        Some("CardReset"@)
    } else if i == 6 {
        Some("CVMManagement"@)
    } else if i == 7 {
        Some("MandatedDAPVerification"@)
    } else if i == 8 {
        Some("TrustedPath"@)
    } else if i == 9 {
        Some("AuthorizedManagement"@)
    } else if i == 10 {
        Some("TokenVerification"@)
    } else if i == 11 {
        Some("GlobalDelete"@)
    } else if i == 12 {
        Some("GlobalLock"@)
    } else if i == 13 {
        Some("GlobalRegistry"@)
    } else if i == 14 {
        Some("FinalApplication"@)
    } else if i == 15 {
        Some("GlobalService"@)
    } else if i == 16 {
        Some("ReceiptGeneration"@)
    } else if i == 17 {
        Some("CipheredLoadFileDataBlock"@)
    } else if i == 18 {
        Some("ContactlessActivation"@)
    } else if i == 19 {
        Some("ContactlessSelfActivation"@)
    } else {
        None
    }
}

/// Whether bit `i` is set, counted from the highest bit of the first byte.
pub open spec fn privilege_set(p: Seq<u8>, i: int) -> bool {
    (p[i / 8] >> ((7 - i % 8) as u8)) % 2 == 1
}

/// The names of those of the first `k` bits that are set.
pub open spec fn names_to(p: Seq<u8>, k: int) -> Seq<Seq<char>>
    decreases k,
{
    if k <= 0 {
        Seq::empty()
    } else {
        match privilege_name(k - 1) {
            Some(name) => if privilege_set(p, k - 1) {
                names_to(p, k - 1).push(name)
            } else {
                names_to(p, k - 1)
            },
            None => names_to(p, k - 1),
        }
    }
}

/// The names of the privileges that are set.
pub open spec fn privileges_text(p: Seq<u8>) -> Seq<char> {
    let names = names_to(p, 24);
    if names.len() == 0 {
        "<none>"@
    } else {
        comma_separated(names)
    }
}

fn name_of(i: usize) -> (r: Option<&'static str>)
    ensures
        match r {
            Some(name) => privilege_name(i as int) == Some(name@),
            None => privilege_name(i as int) is None,
        },
{
    match i {
        0 => Some("SecurityDomain"),
        1 => Some("DAPVerification"),
        2 => Some("DelegatedManagement"),
        3 => Some("CardLock"),
        4 => Some("CardTerminate"),
        5 => Some("CardReset"),
        6 => Some("CVMManagement"),
        7 => Some("MandatedDAPVerification"),
        8 => Some("TrustedPath"),
        9 => Some("AuthorizedManagement"),
        10 => Some("TokenVerification"),
        11 => Some("GlobalDelete"),
        12 => Some("GlobalLock"),
        13 => Some("GlobalRegistry"),
        14 => Some("FinalApplication"),
        15 => Some("GlobalService"),
        16 => Some("ReceiptGeneration"),
        17 => Some("CipheredLoadFileDataBlock"),
        18 => Some("ContactlessActivation"),
        19 => Some("ContactlessSelfActivation"),
        _ => None,
    }
}

/// The three bytes of privileges of an application.
#[derive(Debug, Clone, Copy, PartialEq, Eq)]
pub struct Privileges<'a>(pub &'a [u8; 3]);

impl<'a> Privileges<'a> {
    /// Whether the application is a security domain.
    pub fn is_security_domain(&self) -> (r: bool)
        ensures
            r == (self.0@[0] & 0x80 != 0),
    {
        self.0[0] & 0x80 != 0
    }

    /// The names of the privileges that are set, from the highest bit of the first
    /// byte on, or `<none>`.
    pub fn to_text(&self) -> (r: String)
        ensures
            r@ == privileges_text(self.0@),
    {
        let mut s: String = String::new();
        let mut wrote: bool = false;
        let mut i: usize = 0;
        assert(s@ =~= Seq::empty());
        while i < 24
            invariant
                i <= 24,
                wrote == (names_to(self.0@, i as int).len() > 0),
                s@ == comma_separated(names_to(self.0@, i as int)),
            decreases 24 - i,
        {
            let ghost before = names_to(self.0@, i as int);
            if let Some(name) = name_of(i) {
                let byte: u8 = self.0[i / 8];
                let shift: u8 = (7 - i % 8) as u8;
                if (byte >> shift) % 2 == 1 {
                    if wrote {
                        s.append(", ");
                    }
                    s.append(name);
                    wrote = true;
                    proof {
                        let after = before.push(name@);
                        assert(after.drop_last() =~= before);
                        assert(Seq::<char>::empty() + name@ =~= name@);
                        assert(s@ == comma_separated(after));
                    }
                }
            }
            i = i + 1;
        }
        if !wrote {
            assert(s@ =~= Seq::empty());
            s.append("<none>");
            assert(s@ =~= "<none>"@);
        }
        s
    }

    /// The bytes in hexadecimal and the names.
    pub fn to_debug_text(&self) -> (r: String)
        ensures
            r@ == "Privileges("@ + byte_text(self.0@[0]) + " "@ + byte_text(self.0@[1]) + " "@
                + byte_text(self.0@[2]) + ": "@ + privileges_text(self.0@) + ")"@,
    {
        let mut s: String = String::new();
        s.append("Privileges(");
        assert(s@ =~= "Privileges("@);
        push_byte(&mut s, self.0[0]);
        s.append(" ");
        push_byte(&mut s, self.0[1]);
        s.append(" ");
        push_byte(&mut s, self.0[2]);
        s.append(": ");
        s.append(self.to_text().as_str());
        s.append(")");
        s
    }
}

} // verus!
