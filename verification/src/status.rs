//! The outcome of one iteration: a kind and a protocol-specific code.
use vstd::prelude::*;

verus! {

/// The broad class an iteration's outcome falls into.
#[derive(Debug, Clone, Copy, PartialEq, Eq, Hash, Structural)]
pub enum StatusKind {
    /// The iteration did what was asked of it.
    Success,
    /// The request was refused as the client's fault.
    ClientError,
    /// The target failed to serve the request.
    ServerError,
    /// Any other failure.
    Error,
}

/// The status of an iteration: its kind and the code the protocol reported.
#[derive(Debug, Clone, Copy, PartialEq, Eq, Hash, Structural)]
pub struct Status {
    kind: StatusKind,
    code: i64,
}

/// The name `Display` gives a status kind.
pub open spec fn kind_name(kind: StatusKind) -> Seq<char> {
    match kind {
        StatusKind::Success => seq!['S', 'u', 'c', 'c', 'e', 's', 's'],
        StatusKind::ClientError => seq!['C', 'l', 'i', 'e', 'n', 't', 'E', 'r', 'r', 'o', 'r'],
        StatusKind::ServerError => seq!['S', 'e', 'r', 'v', 'e', 'r', 'E', 'r', 'r', 'o', 'r'],
        StatusKind::Error => seq!['E', 'r', 'r', 'o', 'r'],
    }
}

/// The character of a decimal digit.
pub open spec fn digit_char(d: int) -> char {
    if d == 0 { '0' }
    else if d == 1 { '1' }
    else if d == 2 { '2' }
    else if d == 3 { '3' }
    else if d == 4 { '4' }
    else if d == 5 { '5' }
    else if d == 6 { '6' }
    else if d == 7 { '7' }
    else if d == 8 { '8' }
    else { '9' }
}

/// The decimal digits of a natural number, most significant first, without leading zeros.
pub open spec fn decimal_digits(n: nat) -> Seq<char>
    decreases n,
{
    if n < 10 {
        seq![digit_char(n as int)]
    } else {
        decimal_digits(n / 10).push(digit_char((n % 10) as int))
    }
}

/// An integer written in decimal, with a leading `-` when it is negative.
pub open spec fn decimal(n: int) -> Seq<char> {
    if n < 0 {
        seq!['-'] + decimal_digits((-n) as nat)
    } else {
        decimal_digits(n as nat)
    }
}

/// How a status is written: its kind, then its code in brackets, as in `Success(0)`.
pub open spec fn status_text(kind: StatusKind, code: int) -> Seq<char> {
    kind_name(kind) + seq!['('] + decimal(code) + seq![')']
}

fn digit_str(d: u64) -> (s: &'static str)
    requires
        d < 10,
    ensures
        s@ == seq![digit_char(d as int)],
{
    if d == 0 { proof { reveal_strlit("0"); } "0" }
    else if d == 1 { proof { reveal_strlit("1"); } "1" }
    else if d == 2 { proof { reveal_strlit("2"); } "2" }
    else if d == 3 { proof { reveal_strlit("3"); } "3" }
    else if d == 4 { proof { reveal_strlit("4"); } "4" }
    else if d == 5 { proof { reveal_strlit("5"); } "5" }
    else if d == 6 { proof { reveal_strlit("6"); } "6" }
    else if d == 7 { proof { reveal_strlit("7"); } "7" }
    else if d == 8 { proof { reveal_strlit("8"); } "8" }
    else { proof { reveal_strlit("9"); } "9" }
}

/// Append the decimal digits of `n` to `out`.
pub fn push_decimal_digits(out: &mut String, n: u64)
    ensures
        final(out)@ == old(out)@ + decimal_digits(n as nat),
    decreases n,
{
    if n < 10 {
        out.append(digit_str(n));
    } else {
        push_decimal_digits(out, n / 10);
        out.append(digit_str(n % 10));
        assert(decimal_digits(n as nat) == decimal_digits((n / 10) as nat).push(digit_char((n % 10) as int)));
        assert(old(out)@ + decimal_digits(n as nat) =~= old(out)@ + decimal_digits((n / 10) as nat) + seq![digit_char((n % 10) as int)]);
    }
}

/// Append `n` in decimal to `out`, as `i64`'s `Display` writes it.
pub fn push_decimal(out: &mut String, n: i64)
    ensures
        final(out)@ == old(out)@ + decimal(n as int),
{
    if n < 0 {
        proof { reveal_strlit("-"); }
        out.append("-");
        let magnitude: u64 = if n == i64::MIN { 9223372036854775808u64 } else { (-n) as u64 };
        push_decimal_digits(out, magnitude);
        assert(old(out)@ + decimal(n as int) =~= old(out)@ + seq!['-'] + decimal_digits(magnitude as nat));
    } else {
        push_decimal_digits(out, n as u64);
    }
}

impl Status {
    /// The kind of this status.
    pub closed spec fn kind_of(self) -> StatusKind {
        self.kind
    }

    /// The code of this status.
    pub closed spec fn code_of(self) -> i64 {
        self.code
    }

    /// A successful outcome with the given code.
    pub fn success(code: i64) -> (s: Status)
        ensures
            s.kind_of() == StatusKind::Success,
            s.code_of() == code,
    {
        Status { kind: StatusKind::Success, code }
    }

    /// An outcome refused as the client's fault, with the given code.
    pub fn client_error(code: i64) -> (s: Status)
        ensures
            s.kind_of() == StatusKind::ClientError,
            s.code_of() == code,
    {
        Status { kind: StatusKind::ClientError, code }
    }

    /// An outcome the target failed to serve, with the given code.
    pub fn server_error(code: i64) -> (s: Status)
        ensures
            s.kind_of() == StatusKind::ServerError,
            s.code_of() == code,
    {
        Status { kind: StatusKind::ServerError, code }
    }

    /// Any other failed outcome, with the given code.
    pub fn error(code: i64) -> (s: Status)
        ensures
            s.kind_of() == StatusKind::Error,
            s.code_of() == code,
    {
        Status { kind: StatusKind::Error, code }
    }

    /// The kind of this status.
    pub fn kind(&self) -> (k: StatusKind)
        ensures
            k == self.kind_of(),
    {
        self.kind
    }

    /// The code of this status.
    pub fn code(&self) -> (c: i64)
        ensures
            c == self.code_of(),
    {
        self.code
    }

    /// This status written out, as in `Success(0)`.
    pub fn to_text(&self) -> (s: String)
        ensures
            s@ == status_text(self.kind_of(), self.code_of() as int),
    {
        let mut out = String::new();
        match self.kind {
            StatusKind::Success => {
                proof { reveal_strlit("Success"); }
                out.append("Success");
            },
            StatusKind::ClientError => {
                proof { reveal_strlit("ClientError"); }
                out.append("ClientError");
            },
            StatusKind::ServerError => {
                proof { reveal_strlit("ServerError"); }
                out.append("ServerError");
            },
            StatusKind::Error => {
                proof { reveal_strlit("Error"); }
                out.append("Error");
            },
        }
        proof { reveal_strlit("("); reveal_strlit(")"); }
        out.append("(");
        push_decimal(&mut out, self.code);
        out.append(")");
        assert(out@ =~= status_text(self.kind, self.code as int));
        out
    }
}

} // verus!
