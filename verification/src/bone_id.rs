use vstd::prelude::*;
use vstd::string::*;
use crate::appendage::AppendageClass;

verus! {

/// Which half of a bilateral pair a bone belongs to.
#[derive(Clone, Copy, Debug, PartialEq, Eq, Structural, Hash)]
pub enum Side {
    Left,
    Right,
}

impl Side {
    /// Sign used to place this side along the lateral axis.
    pub fn mirror_x(&self) -> (r: i64)
        ensures
            r == self.spec_mirror_x(),
    {
        match self {
            Side::Left => 1,
            Side::Right => -1,
        }
    }

    pub open spec fn spec_mirror_x(self) -> i64 {
        match self {
            Side::Left => 1i64,
            Side::Right => -1i64,
        }
    }
}

/// The category a bone falls into.
#[derive(Clone, Copy, Debug, PartialEq, Eq, Structural, Hash)]
pub enum BoneClass {
    Root,
    Head,
    Mandible,
    Spine,
    Limb(AppendageClass),
    Digit,
}

/// The mathematical content of a `BoneId`.
#[verifier::ext_equal]
pub ghost struct BoneIdView {
    pub class: BoneClass,
    pub side: Option<Side>,
    pub index: u8,
    pub branch_path: Seq<u8>,
}

/// Identity of one bone: category, optional side, index within its chain,
/// and the path of branch choices that led to its chain.
#[derive(Clone, Debug, Hash)]
pub struct BoneId {
    pub class: BoneClass,
    pub side: Option<Side>,
    pub index: u8,
    /// Path through branch points for nested structures such as digits of a hand.
    pub branch_path: Vec<u8>,
}

impl View for BoneId {
    type V = BoneIdView;

    open spec fn view(&self) -> BoneIdView {
        BoneIdView {
            class: self.class,
            side: self.side,
            index: self.index,
            branch_path: self.branch_path@,
        }
    }
}

impl PartialEq for BoneId {
    fn eq(&self, other: &BoneId) -> (r: bool) {
        let classes_match = self.class == other.class;
        let sides_match = match (self.side, other.side) {
            (None, None) => true,
            (Some(a), Some(b)) => a == b,
            _ => false,
        };
        if !(classes_match && sides_match && self.index == other.index) {
            return false;
        }
        if self.branch_path.len() != other.branch_path.len() {
            return false;
        }
        let n = self.branch_path.len();
        let mut i: usize = 0;
        while i < n
            invariant
                i <= n,
                n == self.branch_path@.len(),
                n == other.branch_path@.len(),
                forall|k: int| 0 <= k < i ==> self.branch_path@[k] == other.branch_path@[k],
            decreases n - i,
        {
            if self.branch_path[i] != other.branch_path[i] {
                return false;
            }
            i = i + 1;
        }
        proof {
            assert(self.branch_path@ =~= other.branch_path@);
        }
        true
    }
}

impl vstd::std_specs::cmp::PartialEqSpecImpl for BoneId {
    open spec fn obeys_eq_spec() -> bool {
        true
    }

    open spec fn eq_spec(&self, other: &BoneId) -> bool {
        self@ == other@
    }
}

pub open spec fn digit_char(d: int) -> char {
    if d == 0 {
        '0'
    } else if d == 1 {
        '1'
    } else if d == 2 {
        '2'
    } else if d == 3 {
        '3'
    } else if d == 4 {
        '4'
    } else if d == 5 {
        '5'
    } else if d == 6 {
        '6'
    } else if d == 7 {
        '7'
    } else if d == 8 {
        '8'
    } else {
        '9'
    }
}

/// Decimal representation of `n`, most significant digit first, no leading zeros.
pub open spec fn dec_rep(n: nat) -> Seq<char>
    decreases n,
{
    if n < 10 {
        seq![digit_char(n as int)]
    } else {
        dec_rep(n / 10) + seq![digit_char((n % 10) as int)]
    }
}

pub open spec fn side_suffix(side: Option<Side>) -> Seq<char> {
    match side {
        None => Seq::empty(),
        Some(Side::Left) => seq!['_', 'L'],
        Some(Side::Right) => seq!['_', 'R'],
    }
}

pub open spec fn class_label(class: AppendageClass) -> Seq<char> {
    match class {
        AppendageClass::Forelimb => seq!['f', 'o', 'r', 'e', 'l', 'i', 'm', 'b'],
        AppendageClass::Hindlimb => seq!['h', 'i', 'n', 'd', 'l', 'i', 'm', 'b'],
        AppendageClass::Wing => seq!['w', 'i', 'n', 'g'],
        AppendageClass::Tentacle => seq!['t', 'e', 'n', 't', 'a', 'c', 'l', 'e'],
        AppendageClass::Tail => seq!['t', 'a', 'i', 'l'],
        AppendageClass::Antenna => seq!['a', 'n', 't', 'e', 'n', 'n', 'a'],
    }
}

/// The name stem determined by the bone's class and index.
pub open spec fn base_name(v: BoneIdView) -> Seq<char> {
    match v.class {
        BoneClass::Root => seq!['r', 'o', 'o', 't'],
        BoneClass::Head => seq!['h', 'e', 'a', 'd'],
        BoneClass::Mandible => seq!['m', 'a', 'n', 'd', 'i', 'b', 'l', 'e'],
        BoneClass::Spine => seq!['s', 'p', 'i', 'n', 'e', '_'] + dec_rep(v.index as nat),
        BoneClass::Limb(c) => class_label(c) + seq!['_'] + dec_rep(v.index as nat),
        BoneClass::Digit => seq!['d', 'i', 'g', 'i', 't', '_'] + dec_rep(v.index as nat),
    }
}

/// Suffix spelled out for the first `upto` entries of the branch path.
pub open spec fn branch_suffix(path: Seq<u8>, upto: int) -> Seq<char>
    decreases upto,
{
    if upto <= 0 {
        Seq::empty()
    } else {
        branch_suffix(path, upto - 1) + seq!['_', 'b'] + dec_rep((upto - 1) as nat) + seq!['_']
            + dec_rep(path[upto - 1] as nat)
    }
}

/// The deterministic animation-target name of a bone id.
pub open spec fn name_of(v: BoneIdView) -> Seq<char> {
    if v.class is Root {
        seq!['r', 'o', 'o', 't']
    } else {
        base_name(v) + side_suffix(v.side) + branch_suffix(v.branch_path, v.branch_path.len() as int)
    }
}

/// A decimal representation is never empty, and has at least two digits
/// from ten upward.
pub proof fn lemma_dec_rep_len(n: nat)
    ensures
        dec_rep(n).len() >= 1,
        n >= 10 ==> dec_rep(n).len() >= 2,
    decreases n,
{
    if n >= 10 {
        lemma_dec_rep_len(n / 10);
    }
}

/// Distinct digits print as distinct characters.
pub proof fn lemma_digit_char_inj(a: int, b: int)
    requires
        0 <= a < 10,
        0 <= b < 10,
        digit_char(a) == digit_char(b),
    ensures
        a == b,
{
}

/// Decimal representations are injective: equal digit strings mean equal
/// numbers.
pub proof fn lemma_dec_rep_inj(a: nat, b: nat)
    requires
        dec_rep(a) == dec_rep(b),
    ensures
        a == b,
    decreases a,
{
    lemma_dec_rep_len(a);
    lemma_dec_rep_len(b);
    if a < 10 && b < 10 {
        assert(dec_rep(a)[0] == digit_char(a as int));
        assert(dec_rep(b)[0] == digit_char(b as int));
        lemma_digit_char_inj(a as int, b as int);
    } else if a < 10 {
        assert(dec_rep(a).len() == 1);
        assert(false);
    } else if b < 10 {
        assert(dec_rep(b).len() == 1);
        assert(false);
    } else {
        assert(dec_rep(a).last() == digit_char((a % 10) as int));
        assert(dec_rep(b).last() == digit_char((b % 10) as int));
        lemma_digit_char_inj((a % 10) as int, (b % 10) as int);
        assert(dec_rep(a).drop_last() =~= dec_rep(a / 10));
        assert(dec_rep(b).drop_last() =~= dec_rep(b / 10));
        lemma_dec_rep_inj(a / 10, b / 10);
    }
}

/// One decimal digit as a string slice.
fn digit_str(d: u8) -> (r: &'static str)
    requires
        d < 10,
    ensures
        r@ =~= seq![digit_char(d as int)],
{
    proof {
        reveal_strlit("0");
        reveal_strlit("1");
        reveal_strlit("2");
        reveal_strlit("3");
        reveal_strlit("4");
        reveal_strlit("5");
        reveal_strlit("6");
        reveal_strlit("7");
        reveal_strlit("8");
        reveal_strlit("9");
    }
    match d {
        0 => "0",
        1 => "1",
        2 => "2",
        3 => "3",
        4 => "4",
        5 => "5",
        6 => "6",
        7 => "7",
        8 => "8",
        _ => "9",
    }
}

/// Append the decimal representation of `n` to `s`.
fn push_dec(s: &mut String, n: u64)
    ensures
        final(s)@ =~= old(s)@ + dec_rep(n as nat),
    decreases n,
{
    if n >= 10 {
        push_dec(s, n / 10);
    }
    s.append(digit_str((n % 10) as u8));
}

impl BoneId {
    /// The synthetic anchor bone at the base of every skeleton.
    pub fn root() -> (r: BoneId)
        ensures
            r@ == (BoneIdView {
                class: BoneClass::Root,
                side: None,
                index: 0u8,
                branch_path: Seq::empty(),
            }),
    {
        let r = BoneId { class: BoneClass::Root, side: None, index: 0, branch_path: Vec::new() };
        proof {
            assert(r@.branch_path =~= Seq::<u8>::empty());
        }
        r
    }

    pub fn head() -> (r: BoneId)
        ensures
            r@ == (BoneIdView {
                class: BoneClass::Head,
                side: None,
                index: 0u8,
                branch_path: Seq::empty(),
            }),
    {
        let r = BoneId { class: BoneClass::Head, side: None, index: 0, branch_path: Vec::new() };
        proof {
            assert(r@.branch_path =~= Seq::<u8>::empty());
        }
        r
    }

    pub fn mandible() -> (r: BoneId)
        ensures
            r@ == (BoneIdView {
                class: BoneClass::Mandible,
                side: None,
                index: 0u8,
                branch_path: Seq::empty(),
            }),
    {
        let r = BoneId {
            class: BoneClass::Mandible,
            side: None,
            index: 0,
            branch_path: Vec::new(),
        };
        proof {
            assert(r@.branch_path =~= Seq::<u8>::empty());
        }
        r
    }

    pub fn spine(index: u8) -> (r: BoneId)
        ensures
            r@ == (BoneIdView {
                class: BoneClass::Spine,
                side: None,
                index: index,
                branch_path: Seq::empty(),
            }),
    {
        let r = BoneId { class: BoneClass::Spine, side: None, index, branch_path: Vec::new() };
        proof {
            assert(r@.branch_path =~= Seq::<u8>::empty());
        }
        r
    }

    pub fn limb(class: AppendageClass, side: Option<Side>, index: u8) -> (r: BoneId)
        ensures
            r@ == (BoneIdView {
                class: BoneClass::Limb(class),
                side: side,
                index: index,
                branch_path: Seq::empty(),
            }),
    {
        let r = BoneId { class: BoneClass::Limb(class), side, index, branch_path: Vec::new() };
        proof {
            assert(r@.branch_path =~= Seq::<u8>::empty());
        }
        r
    }

    /// Descend one branch point: record which branch was taken.
    pub fn with_branch(self, branch_index: u8) -> (r: BoneId)
        ensures
            r@ == (BoneIdView { branch_path: self@.branch_path.push(branch_index), ..self@ }),
    {
        let mut this = self;
        this.branch_path.push(branch_index);
        this
    }

    pub fn digit(side: Option<Side>, digit_index: u8) -> (r: BoneId)
        ensures
            r@ == (BoneIdView {
                class: BoneClass::Digit,
                side: side,
                index: digit_index,
                branch_path: Seq::empty(),
            }),
    {
        let r = BoneId {
            class: BoneClass::Digit,
            side,
            index: digit_index,
            branch_path: Vec::new(),
        };
        proof {
            assert(r@.branch_path =~= Seq::<u8>::empty());
        }
        r
    }

    /// Deterministic name for animation targeting.
    pub fn name(&self) -> (r: String)
        ensures
            r@ =~= name_of(self@),
    {
        proof {
            reveal_strlit("root");
            reveal_strlit("head");
            reveal_strlit("mandible");
            reveal_strlit("spine_");
            reveal_strlit("forelimb_");
            reveal_strlit("hindlimb_");
            reveal_strlit("wing_");
            reveal_strlit("tentacle_");
            reveal_strlit("tail_");
            reveal_strlit("antenna_");
            reveal_strlit("digit_");
            reveal_strlit("_L");
            reveal_strlit("_R");
            reveal_strlit("_b");
            reveal_strlit("_");
        }
        let mut s = String::new();
        match self.class {
            BoneClass::Root => {
                s.append("root");
                return s;
            },
            BoneClass::Head => {
                s.append("head");
            },
            BoneClass::Mandible => {
                s.append("mandible");
            },
            BoneClass::Spine => {
                s.append("spine_");
                push_dec(&mut s, self.index as u64);
            },
            BoneClass::Limb(class) => {
                match class {
                    AppendageClass::Forelimb => s.append("forelimb_"),
                    AppendageClass::Hindlimb => s.append("hindlimb_"),
                    AppendageClass::Wing => s.append("wing_"),
                    AppendageClass::Tentacle => s.append("tentacle_"),
                    AppendageClass::Tail => s.append("tail_"),
                    AppendageClass::Antenna => s.append("antenna_"),
                }
                push_dec(&mut s, self.index as u64);
            },
            BoneClass::Digit => {
                s.append("digit_");
                push_dec(&mut s, self.index as u64);
            },
        }
        proof {
            assert(s@ =~= base_name(self@));
        }
        match self.side {
            None => {},
            Some(Side::Left) => s.append("_L"),
            Some(Side::Right) => s.append("_R"),
        }
        proof {
            assert(s@ =~= base_name(self@) + side_suffix(self@.side));
        }
        let ghost stem: Seq<char> = s@;
        let n = self.branch_path.len();
        let mut i: usize = 0;
        while i < n
            invariant
                i <= n,
                n == self.branch_path@.len(),
                s@ =~= stem + branch_suffix(self.branch_path@, i as int),
            decreases n - i,
        {
            s.append("_b");
            push_dec(&mut s, i as u64);
            s.append("_");
            push_dec(&mut s, self.branch_path[i] as u64);
            proof {
                reveal_strlit("_b");
                reveal_strlit("_");
            }
            i = i + 1;
        }
        proof {
            assert(s@ =~= stem + branch_suffix(self.branch_path@, n as int));
        }
        s
    }
}

} // verus!
