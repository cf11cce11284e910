use vstd::prelude::*;

verus! {

/// Binary (1024-based) units of data size.
#[derive(PartialEq, Eq, Structural, Debug, Clone, Copy)]
pub enum Unit {
    B,
    KB,
    MB,
    GB,
    TB,
    PB,
    EB,
}

/// Bytes in one of `u`.
pub open spec fn unit_bytes(u: Unit) -> int {
    match u {
        Unit::B => 1,
        Unit::KB => 1024,
        Unit::MB => 1_048_576,
        Unit::GB => 1_073_741_824,
        Unit::TB => 1_099_511_627_776,
        Unit::PB => 1_125_899_906_842_624,
        Unit::EB => 1_152_921_504_606_846_976,
    }
}

impl Unit {
    /// Bytes in one of this unit.
    pub fn bytes(&self) -> (r: u64)
        ensures
            r == unit_bytes(*self),
    {
        match self {
            Unit::B => 1,
            Unit::KB => 1024,
            Unit::MB => 1_048_576,
            Unit::GB => 1_073_741_824,
            Unit::TB => 1_099_511_627_776,
            Unit::PB => 1_125_899_906_842_624,
            Unit::EB => 1_152_921_504_606_846_976,
        }
    }
}

/// The largest unit that `bytes` reaches; bytes for zero.
pub open spec fn largest_unit(bytes: int) -> Unit {
    if bytes >= unit_bytes(Unit::EB) {
        Unit::EB
    } else if bytes >= unit_bytes(Unit::PB) {
        Unit::PB
    } else if bytes >= unit_bytes(Unit::TB) {
        Unit::TB
    } else if bytes >= unit_bytes(Unit::GB) {
        Unit::GB
    } else if bytes >= unit_bytes(Unit::MB) {
        Unit::MB
    } else if bytes >= unit_bytes(Unit::KB) {
        Unit::KB
    } else {
        Unit::B
    }
}

/// The unit in which a byte count reads best: the largest it reaches.
pub fn unit_for(bytes: u64) -> (r: Unit)
    ensures
        r == largest_unit(bytes as int),
        bytes >= 1 ==> unit_bytes(r) <= bytes,
        r != Unit::EB ==> bytes < 1024 * unit_bytes(r),
{
    let units = [Unit::EB, Unit::PB, Unit::TB, Unit::GB, Unit::MB, Unit::KB];
    let mut i: usize = 0;
    while i < 6
        invariant
            i <= 6,
            units@ == seq![Unit::EB, Unit::PB, Unit::TB, Unit::GB, Unit::MB, Unit::KB],
            forall|j: int| 0 <= j < i ==> bytes < unit_bytes(#[trigger] units@[j]),
        decreases 6 - i,
    {
        if bytes >= units[i].bytes() {
            return units[i];
        }
        i = i + 1;
    }
    Unit::B
}

/// A count of some unit of data.
#[derive(PartialEq, Eq, Structural, Debug, Clone, Copy)]
pub struct DataSize {
    pub size: usize,
    pub unit: Unit,
}

impl DataSize {
    /// Number of bytes this size stands for.
    pub open spec fn byte_count(self) -> int {
        self.size * unit_bytes(self.unit)
    }

    pub fn new(size: usize, unit: Unit) -> (r: DataSize)
        ensures
            r == (DataSize { size, unit }),
    {
        DataSize { size, unit }
    }

    pub fn from_bytes(size: usize) -> (r: DataSize)
        ensures
            r == (DataSize { size, unit: Unit::B }),
    {
        DataSize { size, unit: Unit::B }
    }

    /// The number of bytes, which must fit in `usize`.
    pub fn to_bytes(&self) -> (r: usize)
        requires
            self.byte_count() <= usize::MAX,
        ensures
            r == self.byte_count(),
    {
        (self.size as u64 * self.unit.bytes()) as usize
    }

    /// The number of bytes, or `None` where it does not fit in `usize`.
    pub fn checked_bytes(&self) -> (r: Option<usize>)
        ensures
            r == if self.byte_count() <= usize::MAX {
                Some(self.byte_count() as usize)
            } else {
                None::<usize>
            },
    {
        match (self.size as u64).checked_mul(self.unit.bytes()) {
            Some(b) => {
                if b <= usize::MAX as u64 {
                    Some(b as usize)
                } else {
                    None
                }
            },
            None => {
                assert(self.size as int * unit_bytes(self.unit) > u64::MAX);
                None
            },
        }
    }
}

/// Why a data size string was refused.
#[derive(PartialEq, Eq, Structural, Debug, Clone, Copy)]
pub enum DataSizeError {
    /// Not one or more decimal digits followed by one or more ASCII letters.
    Malformed,
    /// The number does not fit in `usize`.
    TooLarge,
    /// The letters name no unit.
    UnknownUnit,
}

pub open spec fn is_digit(c: char) -> bool {
    '0' <= c && c <= '9'
}

pub open spec fn is_letter(c: char) -> bool {
    ('a' <= c && c <= 'z') || ('A' <= c && c <= 'Z')
}

/// Number of decimal digits at the start of `s`.
pub open spec fn leading_digits(s: Seq<char>) -> nat
    decreases s.len(),
{
    if s.len() > 0 && is_digit(s[0]) {
        1 + leading_digits(s.drop_first())
    } else {
        0
    }
}

/// Value of a string of decimal digits.
pub open spec fn digits_value(d: Seq<char>) -> int
    decreases d.len(),
{
    if d.len() == 0 {
        0
    } else {
        digits_value(d.drop_last()) * 10 + (d.last() as u32 - '0' as u32)
    }
}

/// The unit a suffix names, in any letter case.
pub open spec fn unit_named(t: Seq<char>) -> Option<Unit> {
    if t.len() == 1 && (t[0] == 'b' || t[0] == 'B') {
        Some(Unit::B)
    } else if t.len() == 2 && (t[1] == 'b' || t[1] == 'B') {
        if t[0] == 'k' || t[0] == 'K' {
            Some(Unit::KB)
        } else if t[0] == 'm' || t[0] == 'M' {
            Some(Unit::MB)
        } else if t[0] == 'g' || t[0] == 'G' {
            Some(Unit::GB)
        } else if t[0] == 't' || t[0] == 'T' {
            Some(Unit::TB)
        } else if t[0] == 'p' || t[0] == 'P' {
            Some(Unit::PB)
        } else if t[0] == 'e' || t[0] == 'E' {
            Some(Unit::EB)
        } else {
            None
        }
    } else {
        None
    }
}

/// What parsing `s` gives: digits, then a unit suffix.
pub open spec fn parsed_data_size(s: Seq<char>) -> Result<DataSize, DataSizeError> {
    let k = leading_digits(s) as int;
    let rest = s.skip(k);
    if k == 0 || rest.len() == 0 || exists|j: int| 0 <= j < rest.len() && !is_letter(#[trigger] rest[j]) {
        Err(DataSizeError::Malformed)
    } else if digits_value(s.take(k)) > usize::MAX {
        Err(DataSizeError::TooLarge)
    } else if unit_named(rest) is None {
        Err(DataSizeError::UnknownUnit)
    } else {
        Ok(DataSize { size: digits_value(s.take(k)) as usize, unit: unit_named(rest)->Some_0 })
    }
}

proof fn lemma_digits_value_grows(d: Seq<char>, j: int)
    requires
        0 <= j <= d.len(),
        forall|i: int| 0 <= i < d.len() ==> is_digit(#[trigger] d[i]),
    ensures
        0 <= digits_value(d.take(j)) <= digits_value(d),
    decreases d.len(),
{
    if j < d.len() {
        let p = d.drop_last();
        assert forall|i: int| 0 <= i < p.len() implies is_digit(#[trigger] p[i]) by {
            assert(p[i] == d[i]);
        }
        lemma_digits_value_grows(p, j);
        assert(p.take(j) =~= d.take(j));
        assert(p.take(p.len() as int) =~= p);
    } else {
        assert(d.take(j) =~= d);
        if d.len() > 0 {
            let p = d.drop_last();
            assert forall|i: int| 0 <= i < p.len() implies is_digit(#[trigger] p[i]) by {
                assert(p[i] == d[i]);
            }
            lemma_digits_value_grows(p, p.len() as int);
            assert(p.take(p.len() as int) =~= p);
        }
    }
}

/// Parses a size such as `128MB` or `1kb`: decimal digits followed by a
/// binary unit suffix, in any letter case.
pub fn parse_data_size(s: &str) -> (r: Result<DataSize, DataSizeError>)
    ensures
        r == parsed_data_size(s@),
{
    let n = s.unicode_len();
    let ghost v = s@;
    // The run of digits at the start.
    let mut k: usize = 0;
    assert(v.skip(0) =~= v);
    while k < n && '0' <= s.get_char(k) && s.get_char(k) <= '9'
        invariant
            v == s@,
            n == v.len(),
            k <= n,
            leading_digits(v) == k + leading_digits(v.skip(k as int)),
            forall|i: int| 0 <= i < k ==> is_digit(#[trigger] v[i]),
        decreases n - k,
    {
        assert(v.skip(k as int).drop_first() =~= v.skip(k as int + 1));
        k = k + 1;
    }
    assert(leading_digits(v.skip(k as int)) == 0);
    assert(leading_digits(v) == k);
    let ghost rest = v.skip(k as int);
    if k == 0 || k == n {
        return Err(DataSizeError::Malformed);
    }
    // Letters only after the digits.
    let mut j: usize = k;
    while j < n
        invariant
            k <= j <= n,
            v == s@,
            leading_digits(v) == k,
            n == v.len(),
            rest == v.skip(k as int),
            forall|i: int| 0 <= i < j - k ==> is_letter(#[trigger] rest[i]),
        decreases n - j,
    {
        let c = s.get_char(j);
        if !(('a' <= c && c <= 'z') || ('A' <= c && c <= 'Z')) {
            assert(!is_letter(rest[j - k]));
            return Err(DataSizeError::Malformed);
        }
        j = j + 1;
    }
    // The number.
    let ghost digits = v.take(k as int);
    assert forall|i: int| 0 <= i < digits.len() implies is_digit(#[trigger] digits[i]) by {
        assert(digits[i] == v[i]);
    }
    let mut value: usize = 0;
    let mut i: usize = 0;
    while i < k
        invariant
            i <= k < n,
            v == s@,
            rest == v.skip(k as int),
            forall|t: int| 0 <= t < rest.len() ==> is_letter(#[trigger] rest[t]),
            leading_digits(v) == k,
            n == v.len(),
            digits == v.take(k as int),
            forall|t: int| 0 <= t < digits.len() ==> is_digit(#[trigger] digits[t]),
            value == digits_value(digits.take(i as int)),
        decreases k - i,
    {
        let c = s.get_char(i);
        assert(digits[i as int] == c);
        let d = (c as u32 - '0' as u32) as usize;
        assert(digits.take(i as int + 1).drop_last() =~= digits.take(i as int));
        assert(digits.take(i as int + 1).last() == c);
        assert(digits_value(digits.take(i as int + 1)) == value * 10 + d);
        match value.checked_mul(10) {
            Some(m) => match m.checked_add(d) {
                Some(next) => {
                    value = next;
                },
                None => {
                    proof { lemma_digits_value_grows(digits, i as int + 1); }
                    return Err(DataSizeError::TooLarge);
                },
            },
            None => {
                proof { lemma_digits_value_grows(digits, i as int + 1); }
                return Err(DataSizeError::TooLarge);
            },
        }
        i = i + 1;
    }
    assert(digits.take(k as int) =~= digits);
    // The unit.
    let len = n - k;
    let first = s.get_char(k);
    assert(rest[0] == first);
    let unit = if len == 1 {
        if first == 'b' || first == 'B' {
            Some(Unit::B)
        } else {
            None
        }
    } else if len == 2 {
        let second = s.get_char(k + 1);
        assert(rest[1] == second);
        if second == 'b' || second == 'B' {
            if first == 'k' || first == 'K' {
                Some(Unit::KB)
            } else if first == 'm' || first == 'M' {
                Some(Unit::MB)
            } else if first == 'g' || first == 'G' {
                Some(Unit::GB)
            } else if first == 't' || first == 'T' {
                Some(Unit::TB)
            } else if first == 'p' || first == 'P' {
                Some(Unit::PB)
            } else if first == 'e' || first == 'E' {
                Some(Unit::EB)
            } else {
                None
            }
        } else {
            None
        }
    } else {
        None
    };
    match unit {
        Some(unit) => Ok(DataSize { size: value, unit }),
        None => Err(DataSizeError::UnknownUnit),
    }
}

} // verus!
