//! Identifiers, network names and chain constants.
use vstd::prelude::*;
use sha2::{Digest, Sha256};

verus! {

pub type Balance = u64;

pub type Height = u32;

pub type Timestamp = u64;

/// SHA-256 of a byte string.
pub uninterp spec fn sha256(data: Seq<u8>) -> Seq<u8>;

/// `sha2::Sha256::digest`: the 32-byte SHA-256 digest of `data`. The contract
/// names the digest and says nothing more of its value.
#[verifier::external_body]
fn sha256_digest(data: &[u8]) -> (out: [u8; 32])
    ensures
        out@ == sha256(data@),
{
    Sha256::digest(data).into()
}

/// Lower-case hexadecimal digit for a value below 16.
pub open spec fn hex_digit(v: int) -> char {
    if v < 10 {
        (48 + v) as char
    } else {
        (87 + v) as char
    }
}

/// Lower-case hexadecimal text of a byte string, two characters per byte.
pub open spec fn hex_lower(b: Seq<u8>) -> Seq<char> {
    Seq::new(
        2 * b.len(),
        |i: int|
            if i % 2 == 0 {
                hex_digit(b[i / 2] as int / 16)
            } else {
                hex_digit(b[i / 2] as int % 16)
            },
    )
}

/// One-character text of a hexadecimal digit.
fn hex_digit_str(d: u8) -> (s: &'static str)
    requires
        d < 16,
    ensures
        s@ == seq![hex_digit(d as int)],
{
    proof {
        reveal_strlit("0");
        reveal_strlit("1");
        reveal_strlit("2");
        reveal_strlit("3");
        reveal_strlit("4");
        reveal_strlit("5");
        reveal_strlit("6");
        reveal_strlit("7");
        reveal_strlit("8");
        reveal_strlit("9");
        reveal_strlit("a");
        reveal_strlit("b");
        reveal_strlit("c");
        reveal_strlit("d");
        reveal_strlit("e");
        reveal_strlit("f");
    }
    let s = if d == 0 {
        "0"
    } else if d == 1 {
        "1"
    } else if d == 2 {
        "2"
    } else if d == 3 {
        "3"
    } else if d == 4 {
        "4"
    } else if d == 5 {
        "5"
    } else if d == 6 {
        "6"
    } else if d == 7 {
        "7"
    } else if d == 8 {
        "8"
    } else if d == 9 {
        "9"
    } else if d == 10 {
        "a"
    } else if d == 11 {
        "b"
    } else if d == 12 {
        "c"
    } else if d == 13 {
        "d"
    } else if d == 14 {
        "e"
    } else {
        "f"
    };
    assert(s@ =~= seq![hex_digit(d as int)]);
    s
}

/// Lower-case hexadecimal text of the bytes, two digits per byte, high
/// half first (what `hex::encode` gives).
pub(crate) fn hex_encode(data: &[u8]) -> (s: String)
    ensures
        s@ == hex_lower(data@),
{
    let mut s = String::new();
    let mut i: usize = 0;
    assert(s@ =~= hex_lower(data@.subrange(0, 0)));
    while i < data.len()
        invariant
            0 <= i <= data@.len(),
            s@ == hex_lower(data@.subrange(0, i as int)),
        decreases data@.len() - i,
    {
        let b = data[i];
        s.append(hex_digit_str(b / 16));
        s.append(hex_digit_str(b % 16));
        proof {
            let p = data@.subrange(0, i + 1);
            let q = data@.subrange(0, i as int);
            assert forall|j: int| 0 <= j < 2 * p.len() implies #[trigger] s@[j] == hex_lower(p)[j] by {
                if j < 2 * i {
                    assert(j / 2 < i);
                    assert(p[j / 2] == q[j / 2]);
                    assert(s@[j] == hex_lower(q)[j]);
                } else if j == 2 * i {
                    assert(j / 2 == i && j % 2 == 0);
                } else {
                    assert(j / 2 == i && j % 2 == 1);
                }
            }
            assert(s@ =~= hex_lower(p));
        }
        i = i + 1;
    }
    assert(data@.subrange(0, data@.len() as int) =~= data@);
    s
}

/// A 32-byte digest used as the identifier of blocks, batches and contracts.
#[derive(Debug, Clone, Copy, Eq, Hash)]
pub struct Blake2bHash(pub [u8; 32]);

impl View for Blake2bHash {
    type V = Seq<u8>;

    open spec fn view(&self) -> Seq<u8> {
        self.0@
    }
}

impl PartialEq for Blake2bHash {
    fn eq(&self, other: &Self) -> (r: bool) {
        hash_eq(self, other)
    }
}

impl vstd::std_specs::cmp::PartialEqSpecImpl for Blake2bHash {
    open spec fn obeys_eq_spec() -> bool {
        true
    }

    open spec fn eq_spec(&self, other: &Self) -> bool {
        self.0@ == other.0@
    }
}

/// The all-zero digest.
pub open spec fn zero_bytes() -> Seq<u8> {
    Seq::new(32, |i: int| 0u8)
}

impl Blake2bHash {
    /// The all-zero digest.
    pub fn zero() -> (h: Self)
        ensures
            h@ == zero_bytes(),
    {
        let mut a = [0u8; 32];
        let mut i: usize = 0;
        while i < 32
            invariant
                0 <= i <= 32,
                forall|j: int| 0 <= j < i ==> a@[j] == 0u8,
            decreases 32 - i,
        {
            a[i] = 0;
            i = i + 1;
        }
        let h = Blake2bHash(a);
        assert(h@ =~= zero_bytes());
        h
    }

    /// Same as `zero`.
    pub fn default() -> (h: Self)
        ensures
            h@ == zero_bytes(),
    {
        Self::zero()
    }

    pub fn from_bytes(bytes: [u8; 32]) -> (h: Self)
        ensures
            h.0 == bytes,
    {
        Blake2bHash(bytes)
    }

    /// SHA-256 digest of `data`.
    pub fn from_data(data: &[u8]) -> (h: Self)
        ensures
            h@ == sha256(data@),
    {
        hash_data(data)
    }

    pub fn as_bytes(&self) -> (b: &[u8; 32])
        ensures
            *b == self.0,
    {
        &self.0
    }

    /// Lower-case hexadecimal text of the digest (64 characters).
    pub fn to_hex(&self) -> (s: String)
        ensures
            s@ == hex_lower(self@),
    {
        hex_encode(self.0.as_slice())
    }
}

/// Equality of two digests, byte by byte.
pub fn hash_eq(a: &Blake2bHash, b: &Blake2bHash) -> (r: bool)
    ensures
        r == (a@ == b@),
{
    let mut i: usize = 0;
    while i < 32
        invariant
            0 <= i <= 32,
            forall|j: int| 0 <= j < i ==> a.0@[j] == b.0@[j],
        decreases 32 - i,
    {
        if a.0[i] != b.0[i] {
            assert(a.0@[i as int] != b.0@[i as int]);
            return false;
        }
        i = i + 1;
    }
    assert(a.0@ =~= b.0@);
    true
}

/// SHA-256 digest of `data`, the hash used for every identifier of the chain.
pub fn hash_data(data: &[u8]) -> (h: Blake2bHash)
    ensures
        h@ == sha256(data@),
{
    Blake2bHash(sha256_digest(data))
}

/// Network identity: one of the shared networks or a named operator.
#[derive(Debug, Clone, Eq, Hash)]
pub enum NetworkId {
    SPConsortium,
    DevNet,
    TestNet,
    MainNet,
    Operator { name: String, country: String },
}

/// Plain model of a network identity.
pub enum NetworkIdView {
    SPConsortium,
    DevNet,
    TestNet,
    MainNet,
    Operator { name: Seq<char>, country: Seq<char> },
}

impl View for NetworkId {
    type V = NetworkIdView;

    open spec fn view(&self) -> NetworkIdView {
        match self {
            NetworkId::SPConsortium => NetworkIdView::SPConsortium,
            NetworkId::DevNet => NetworkIdView::DevNet,
            NetworkId::TestNet => NetworkIdView::TestNet,
            NetworkId::MainNet => NetworkIdView::MainNet,
            NetworkId::Operator { name, country } => NetworkIdView::Operator {
                name: name@,
                country: country@,
            },
        }
    }
}

/// Whether two network identities are the same.
pub fn network_id_eq(a: &NetworkId, b: &NetworkId) -> (r: bool)
    ensures
        r == (a@ == b@),
{
    match (a, b) {
        (NetworkId::SPConsortium, NetworkId::SPConsortium) => true,
        (NetworkId::DevNet, NetworkId::DevNet) => true,
        (NetworkId::TestNet, NetworkId::TestNet) => true,
        (NetworkId::MainNet, NetworkId::MainNet) => true,
        (NetworkId::Operator { name: n1, country: c1 }, NetworkId::Operator { name: n2, country: c2 }) => {
            *n1 == *n2 && *c1 == *c2
        },
        _ => false,
    }
}

impl PartialEq for NetworkId {
    fn eq(&self, other: &Self) -> (r: bool) {
        network_id_eq(self, other)
    }
}

impl vstd::std_specs::cmp::PartialEqSpecImpl for NetworkId {
    open spec fn obeys_eq_spec() -> bool {
        true
    }

    open spec fn eq_spec(&self, other: &Self) -> bool {
        self@ == other@
    }
}

/// Text of a network identity: the variant's name, or `name:country`.
pub open spec fn network_display(n: NetworkIdView) -> Seq<char> {
    match n {
        NetworkIdView::SPConsortium => seq!['S', 'P', 'C', 'o', 'n', 's', 'o', 'r', 't', 'i', 'u', 'm'],
        NetworkIdView::DevNet => seq!['D', 'e', 'v', 'N', 'e', 't'],
        NetworkIdView::TestNet => seq!['T', 'e', 's', 't', 'N', 'e', 't'],
        NetworkIdView::MainNet => seq!['M', 'a', 'i', 'n', 'N', 'e', 't'],
        NetworkIdView::Operator { name, country } => name + seq![':'] + country,
    }
}

impl NetworkId {
    /// An operator network.
    pub fn new(name: &str, country: &str) -> (n: Self)
        ensures
            n@ == (NetworkIdView::Operator { name: name@, country: country@ }),
    {
        NetworkId::Operator { name: name.to_string(), country: country.to_string() }
    }

    /// A copy with the same model.
    pub fn copy_id(&self) -> (n: Self)
        ensures
            n@ == self@,
    {
        match self {
            NetworkId::SPConsortium => NetworkId::SPConsortium,
            NetworkId::DevNet => NetworkId::DevNet,
            NetworkId::TestNet => NetworkId::TestNet,
            NetworkId::MainNet => NetworkId::MainNet,
            NetworkId::Operator { name, country } => NetworkId::Operator {
                name: name.clone(),
                country: country.clone(),
            },
        }
    }

    /// Display text: the variant's name, or `name:country` for an operator.
    pub fn display(&self) -> (s: String)
        ensures
            s@ == network_display(self@),
    {
        match self {
            NetworkId::SPConsortium => {
                proof {
                    reveal_strlit("SPConsortium");
                }
                "SPConsortium".to_string()
            },
            NetworkId::DevNet => {
                proof {
                    reveal_strlit("DevNet");
                }
                "DevNet".to_string()
            },
            NetworkId::TestNet => {
                proof {
                    reveal_strlit("TestNet");
                }
                "TestNet".to_string()
            },
            NetworkId::MainNet => {
                proof {
                    reveal_strlit("MainNet");
                }
                "MainNet".to_string()
            },
            NetworkId::Operator { name, country } => {
                let mut s = name.clone();
                s.append(":");
                s.append(country.as_str());
                proof {
                    reveal_strlit(":");
                }
                s
            },
        }
    }
}

/// Chain constants.
pub struct Policy;

impl Policy {
    /// Number of blocks in an epoch (macro block interval).
    pub const EPOCH_LENGTH: u32 = 32;

    /// Number of blocks in a batch of micro blocks.
    pub const BATCH_LENGTH: u32 = 8;

    /// Number of the genesis block.
    pub const GENESIS_BLOCK_NUMBER: u32 = 0;

    /// Block time in milliseconds.
    pub const BLOCK_TIME: u64 = 1000;
}

} // verus!
