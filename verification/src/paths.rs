//! Mapping a chunk address to its storage path.

use vstd::prelude::*;

use crate::addr::ChunkAddress;
use crate::addr::Prefix;
use crate::addr::addr_bit;

verus! {

/// Where and how chunks are laid out on disk: the store root, the number of
/// leading address bits used as nested directories, and the file extension.
pub struct StoreConfig {
    root: String,
    depth: usize,
    ext: String,
}

impl StoreConfig {
    /// The store's root directory.
    pub closed spec fn root_spec(&self) -> Seq<char> {
        self.root@
    }

    /// How many leading address bits become directories.
    pub closed spec fn depth_spec(&self) -> int {
        self.depth as int
    }

    /// The suffix of every chunk filename.
    pub closed spec fn ext_spec(&self) -> Seq<char> {
        self.ext@
    }

    /// The directory depth never exceeds the address width.
    pub open spec fn wf(&self) -> bool {
        0 <= self.depth_spec() <= 256
    }

    /// Builds a configuration. Fails exactly when the requested depth
    /// exceeds the number of bits in an address.
    pub fn new(root: String, depth: usize, ext: String) -> (r: Option<StoreConfig>)
        ensures
            r is Some <==> depth <= 256,
            r matches Some(c) ==> c.root_spec() == root@ && c.depth_spec() == depth as int
                && c.ext_spec() == ext@ && c.wf(),
    {
        if depth <= 256 {
            Some(StoreConfig { root, depth, ext })
        } else {
            None
        }
    }

    /// The store's root directory.
    pub fn root(&self) -> (r: &String)
        ensures
            r@ == self.root_spec(),
    {
        &self.root
    }

    /// How many leading address bits become directories.
    pub fn depth(&self) -> (r: usize)
        ensures
            r as int == self.depth_spec(),
    {
        self.depth
    }

    /// The suffix of every chunk filename.
    pub fn ext(&self) -> (r: &String)
        ensures
            r@ == self.ext_spec(),
    {
        &self.ext
    }
}

/// The lowercase hexadecimal digit for a value below sixteen.
pub open spec fn hex_digit(n: u8) -> char {
    if n == 0 {
        '0'
    } else if n == 1 {
        '1'
    } else if n == 2 {
        '2'
    } else if n == 3 {
        '3'
    } else if n == 4 {
        '4'
    } else if n == 5 {
        '5'
    } else if n == 6 {
        '6'
    } else if n == 7 {
        '7'
    } else if n == 8 {
        '8'
    } else if n == 9 {
        '9'
    } else if n == 10 {
        'a'
    } else if n == 11 {
        'b'
    } else if n == 12 {
        'c'
    } else if n == 13 {
        'd'
    } else if n == 14 {
        'e'
    } else {
        'f'
    }
}

/// Lowercase hexadecimal rendering of a byte string: two digits per byte,
/// high nibble first.
pub open spec fn hex_chars(bytes: Seq<u8>) -> Seq<char> {
    Seq::new(
        (2 * bytes.len()) as nat,
        |i: int| if i % 2 == 0 {
            hex_digit(bytes[i / 2] / 16)
        } else {
            hex_digit(bytes[i / 2] % 16)
        },
    )
}

/// One address bit rendered as a directory name.
pub open spec fn bit_char(bytes: Seq<u8>, i: int) -> char {
    if addr_bit(bytes, i) {
        '1'
    } else {
        '0'
    }
}

/// The directory chain for the first `count` bits of `bytes`: each bit as
/// `'0'` or `'1'`, each followed by a separator.
pub open spec fn dir_chars(bytes: Seq<u8>, count: int) -> Seq<char>
    recommends
        0 <= 8 * count <= 8 * 8 * bytes.len(),
{
    Seq::new(
        (2 * count) as nat,
        |i: int| if i % 2 == 0 {
            bit_char(bytes, i / 2)
        } else {
            '/'
        },
    )
}

/// The full storage path of an address under a configuration: the root, a
/// separator, one directory per leading bit, and the hexadecimal filename
/// with the configured extension.
pub open spec fn path_chars(cfg: StoreConfig, addr: Seq<u8>) -> Seq<char> {
    cfg.root_spec() + seq!['/'] + dir_chars(addr, cfg.depth_spec()) + hex_chars(addr)
        + cfg.ext_spec()
}

/// The directory chain a prefix selects: the root, a separator, and one
/// directory per prefix bit.
pub open spec fn prefix_dir_chars(cfg: StoreConfig, prefix: Prefix) -> Seq<char> {
    cfg.root_spec() + seq!['/'] + dir_chars(prefix.bits_spec(), prefix.len_spec())
}

/// The hexadecimal digit for `n` as a one-character string slice.
fn hex_digit_str(n: u8) -> (r: &'static str)
    requires
        n < 16,
    ensures
        r@ == seq![hex_digit(n)],
{
    let r: &'static str = match n {
        0 => "0",
        1 => "1",
        2 => "2",
        3 => "3",
        4 => "4",
        5 => "5",
        6 => "6",
        7 => "7",
        8 => "8",
        9 => "9",
        10 => "a",
        11 => "b",
        12 => "c",
        13 => "d",
        14 => "e",
        _ => "f",
    };
    proof {
        reveal_strlit("0");
        reveal_strlit("1");
        reveal_strlit("2");
        reveal_strlit("3");
        reveal_strlit("4");
        reveal_strlit("5");
        reveal_strlit("6");
        reveal_strlit("7");
        reveal_strlit("8");
        reveal_strlit("9");
        reveal_strlit("a");
        reveal_strlit("b");
        reveal_strlit("c");
        reveal_strlit("d");
        reveal_strlit("e");
        reveal_strlit("f");
        assert(r@ =~= seq![hex_digit(n)]);
    }
    r
}

/// Appends the two hexadecimal digits of one byte.
fn push_hex_byte(s: &mut String, b: u8)
    ensures
        final(s)@ == old(s)@ + seq![hex_digit(b / 16), hex_digit(b % 16)],
{
    let hi: u8 = b / 16;
    let lo: u8 = b % 16;
    s.append(hex_digit_str(hi));
    s.append(hex_digit_str(lo));
    proof {
        assert(s@ =~= old(s)@ + seq![hex_digit(b / 16), hex_digit(b % 16)]);
    }
}

/// The storage path of an address: deterministic, free of side effects, and
/// (proved separately) injective over addresses.
pub fn address_to_filepath(cfg: &StoreConfig, addr: &ChunkAddress) -> (r: String)
    requires
        cfg.wf(),
    ensures
        r@ == path_chars(*cfg, addr@),
{
    let mut s: String = cfg.root.clone();
    s.append("/");
    proof {
        reveal_strlit("/");
        assert(s@ =~= cfg.root_spec() + seq!['/'] + dir_chars(addr@, 0));
    }
    let mut i: usize = 0;
    while i < cfg.depth
        invariant
            i <= cfg.depth,
            cfg.wf(),
            s@ == cfg.root_spec() + seq!['/'] + dir_chars(addr@, i as int),
        decreases cfg.depth - i,
    {
        if addr.bit(i) {
            s.append("1/");
        } else {
            s.append("0/");
        }
        proof {
            reveal_strlit("0/");
            reveal_strlit("1/");
            assert(dir_chars(addr@, i + 1) =~= dir_chars(addr@, i as int)
                + seq![bit_char(addr@, i as int), '/']);
            assert(s@ =~= cfg.root_spec() + seq!['/'] + dir_chars(addr@, i + 1));
        }
        i += 1;
    }
    let ghost base: Seq<char> = cfg.root_spec() + seq!['/'] + dir_chars(addr@, cfg.depth_spec());
    let name: &[u8; 32] = addr.name();
    let mut j: usize = 0;
    while j < 32
        invariant
            j <= 32,
            addr@ == name@,
            s@ == base + hex_chars(addr@).take(2 * j as int),
        decreases 32 - j,
    {
        push_hex_byte(&mut s, name[j]);
        proof {
            assert(hex_chars(addr@).take(2 * (j + 1) as int) =~= hex_chars(addr@).take(
                2 * j as int,
            ) + seq![hex_digit(addr@[j as int] / 16), hex_digit(addr@[j as int] % 16)]);
            assert(s@ =~= base + hex_chars(addr@).take(2 * (j + 1) as int));
        }
        j += 1;
    }
    proof {
        assert(hex_chars(addr@).take(64) =~= hex_chars(addr@));
    }
    s.append(cfg.ext.as_str());
    proof {
        assert(s@ =~= path_chars(*cfg, addr@));
    }
    s
}

/// The directory chain a prefix selects, as a path string rooted at the
/// store root; every chunk whose address starts with the prefix's bits is
/// stored below it.
pub fn prefix_to_dirpath(cfg: &StoreConfig, prefix: &Prefix) -> (r: String)
    requires
        prefix.wf(),
    ensures
        r@ == prefix_dir_chars(*cfg, *prefix),
{
    let mut s: String = cfg.root.clone();
    s.append("/");
    proof {
        reveal_strlit("/");
        assert(s@ =~= cfg.root_spec() + seq!['/'] + dir_chars(prefix.bits_spec(), 0));
    }
    let count: usize = prefix.bit_count();
    let mut i: usize = 0;
    while i < count
        invariant
            i <= count,
            count as int == prefix.len_spec(),
            prefix.wf(),
            s@ == cfg.root_spec() + seq!['/'] + dir_chars(prefix.bits_spec(), i as int),
        decreases count - i,
    {
        if prefix.bit(i) {
            s.append("1/");
        } else {
            s.append("0/");
        }
        proof {
            reveal_strlit("0/");
            reveal_strlit("1/");
            assert(dir_chars(prefix.bits_spec(), i + 1) =~= dir_chars(prefix.bits_spec(), i as int)
                + seq![bit_char(prefix.bits_spec(), i as int), '/']);
            assert(s@ =~= cfg.root_spec() + seq!['/'] + dir_chars(prefix.bits_spec(), i + 1));
        }
        i += 1;
    }
    s
}

/// Two values below sixteen with the same hexadecimal digit are equal.
proof fn lemma_hex_digit_injective(m: u8, n: u8)
    requires
        m < 16,
        n < 16,
        hex_digit(m) == hex_digit(n),
    ensures
        m == n,
{
}

/// The storage path depends on nothing but the configuration and the
/// address: the mapping is a pure function, so repeated calls agree.
pub proof fn lemma_path_deterministic(cfg1: StoreConfig, cfg2: StoreConfig, a1: Seq<u8>, a2: Seq<
    u8,
>)
    requires
        cfg1.root_spec() == cfg2.root_spec(),
        cfg1.depth_spec() == cfg2.depth_spec(),
        cfg1.ext_spec() == cfg2.ext_spec(),
        a1 == a2,
    ensures
        path_chars(cfg1, a1) == path_chars(cfg2, a2),
{
}

/// Distinct addresses always map to distinct storage paths: the hexadecimal
/// filename alone already determines the address.
pub proof fn lemma_path_injective(cfg: StoreConfig, a1: Seq<u8>, a2: Seq<u8>)
    requires
        a1.len() == 32,
        a2.len() == 32,
        path_chars(cfg, a1) == path_chars(cfg, a2),
    ensures
        a1 == a2,
{
    let rl = cfg.root_spec().len() as int;
    let d = cfg.depth_spec();
    let off = rl + 1 + 2 * d;
    let p1 = path_chars(cfg, a1);
    let p2 = path_chars(cfg, a2);
    assert forall|i: int| 0 <= i < 64 implies p1[off + i] == hex_chars(a1)[i] && p2[off + i]
        == hex_chars(a2)[i] by {
        assert(dir_chars(a1, d).len() == 2 * d);
        assert(dir_chars(a2, d).len() == 2 * d);
    }
    assert(hex_chars(a1) =~= hex_chars(a2));
    assert forall|j: int| 0 <= j < 32 implies a1[j] == a2[j] by {
        assert(hex_chars(a1)[2 * j] == hex_digit(a1[j] / 16));
        assert(hex_chars(a1)[2 * j + 1] == hex_digit(a1[j] % 16));
        assert(hex_chars(a2)[2 * j] == hex_digit(a2[j] / 16));
        assert(hex_chars(a2)[2 * j + 1] == hex_digit(a2[j] % 16));
        lemma_hex_digit_injective(a1[j] / 16, a2[j] / 16);
        lemma_hex_digit_injective(a1[j] % 16, a2[j] % 16);
        vstd::arithmetic::div_mod::lemma_fundamental_div_mod(a1[j] as int, 16);
        vstd::arithmetic::div_mod::lemma_fundamental_div_mod(a2[j] as int, 16);
    }
    assert(a1 =~= a2);
}

/// The glob pattern that enumerates every stored chunk file under the root:
/// any nesting of directories, any filename with the configured extension.
pub fn list_pattern(cfg: &StoreConfig) -> (r: String)
    ensures
        r@ == cfg.root_spec() + "/**/*"@ + cfg.ext_spec(),
{
    let mut s: String = cfg.root.clone();
    s.append("/**/*");
    s.append(cfg.ext.as_str());
    s
}

} // verus!
