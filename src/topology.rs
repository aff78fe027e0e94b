use vstd::prelude::*;
use vstd::string::*;

verus! {

/// Identifier of a residue: its position in the chain.
#[derive(Copy, Clone, Debug, Default, PartialEq, Eq, Structural, Hash)]
pub struct ResidueId(pub usize);

/// Small catalogue of amino acids used for defaults.
#[derive(Clone, Copy, Debug, PartialEq, Eq, Structural)]
pub enum AminoAcid {
    Alanine,
    Glycine,
    Serine,
    Valine,
}

pub open spec fn amino_acid_code(a: AminoAcid) -> Seq<char> {
    match a {
        AminoAcid::Alanine => "ALA"@,
        AminoAcid::Glycine => "GLY"@,
        AminoAcid::Serine => "SER"@,
        AminoAcid::Valine => "VAL"@,
    }
}

impl AminoAcid {
    /// Three-letter code of the amino acid.
    pub fn code(self) -> (r: &'static str)
        ensures
            r@ == amino_acid_code(self),
    {
        match self {
            AminoAcid::Alanine => "ALA",
            AminoAcid::Glycine => "GLY",
            AminoAcid::Serine => "SER",
            AminoAcid::Valine => "VAL",
        }
    }

    /// Three-letter code of the amino acid, owned.
    pub fn to_code_string(self) -> (r: String)
        ensures
            r@ == amino_acid_code(self),
    {
        String::from_str(self.code())
    }
}

/// ASCII upper case of a character.
pub open spec fn upper_ascii(c: char) -> char {
    if 'a' <= c && c <= 'z' {
        ((c as u32) - 32) as char
    } else {
        c
    }
}

/// Three-letter residue name for a one-letter code, ignoring ASCII case;
/// `UNK` for anything outside the twenty canonical letters.
pub open spec fn three_letter_name(symbol: char) -> Seq<char> {
    let c = upper_ascii(symbol);
    if c == 'A' { "ALA"@ }
    else if c == 'C' { "CYS"@ }
    else if c == 'D' { "ASP"@ }
    else if c == 'E' { "GLU"@ }
    else if c == 'F' { "PHE"@ }
    else if c == 'G' { "GLY"@ }
    else if c == 'H' { "HIS"@ }
    else if c == 'I' { "ILE"@ }
    else if c == 'K' { "LYS"@ }
    else if c == 'L' { "LEU"@ }
    else if c == 'M' { "MET"@ }
    else if c == 'N' { "ASN"@ }
    else if c == 'P' { "PRO"@ }
    else if c == 'Q' { "GLN"@ }
    else if c == 'R' { "ARG"@ }
    else if c == 'S' { "SER"@ }
    else if c == 'T' { "THR"@ }
    else if c == 'V' { "VAL"@ }
    else if c == 'W' { "TRP"@ }
    else if c == 'Y' { "TYR"@ }
    else { "UNK"@ }
}

/// Three-letter residue name for a one-letter code.
pub fn amino_acid_three_letter(symbol: char) -> (r: String)
    ensures
        r@ == three_letter_name(symbol),
{
    let c = if 'a' <= symbol && symbol <= 'z' {
        if symbol == 'a' { 'A' }
        else if symbol == 'c' { 'C' }
        else if symbol == 'd' { 'D' }
        else if symbol == 'e' { 'E' }
        else if symbol == 'f' { 'F' }
        else if symbol == 'g' { 'G' }
        else if symbol == 'h' { 'H' }
        else if symbol == 'i' { 'I' }
        else if symbol == 'k' { 'K' }
        else if symbol == 'l' { 'L' }
        else if symbol == 'm' { 'M' }
        else if symbol == 'n' { 'N' }
        else if symbol == 'p' { 'P' }
        else if symbol == 'q' { 'Q' }
        else if symbol == 'r' { 'R' }
        else if symbol == 's' { 'S' }
        else if symbol == 't' { 'T' }
        else if symbol == 'v' { 'V' }
        else if symbol == 'w' { 'W' }
        else if symbol == 'y' { 'Y' }
        else { '?' }
    } else {
        symbol
    };
    let name = if c == 'A' { "ALA" }
    else if c == 'C' { "CYS" }
    else if c == 'D' { "ASP" }
    else if c == 'E' { "GLU" }
    else if c == 'F' { "PHE" }
    else if c == 'G' { "GLY" }
    else if c == 'H' { "HIS" }
    else if c == 'I' { "ILE" }
    else if c == 'K' { "LYS" }
    else if c == 'L' { "LEU" }
    else if c == 'M' { "MET" }
    else if c == 'N' { "ASN" }
    else if c == 'P' { "PRO" }
    else if c == 'Q' { "GLN" }
    else if c == 'R' { "ARG" }
    else if c == 'S' { "SER" }
    else if c == 'T' { "THR" }
    else if c == 'V' { "VAL" }
    else if c == 'W' { "TRP" }
    else if c == 'Y' { "TYR" }
    else { "UNK" };
    String::from_str(name)
}

/// Residue names for a one-letter sequence, one per character.
pub fn residue_names(sequence: &str) -> (r: Vec<String>)
    ensures
        r@.len() == sequence@.len(),
        forall|i: int| 0 <= i < r@.len() ==> #[trigger] r@[i]@ == three_letter_name(sequence@[i]),
{
    let n = sequence.unicode_len();
    let mut r: Vec<String> = Vec::new();
    let mut i: usize = 0;
    while i < n
        invariant
            n == sequence@.len(),
            i <= n,
            r@.len() == i,
            forall|k: int| 0 <= k < i ==> #[trigger] r@[k]@ == three_letter_name(sequence@[k]),
        decreases n - i,
    {
        let name = amino_acid_three_letter(sequence.get_char(i));
        r.push(name);
        i += 1;
    }
    r
}

/// The twenty canonical one-letter codes, in the order used for generated sequences.
pub const CANONICAL_CODES: &'static str = "ACDEFGHIKLMNPQRSTVWY";

/// A sequence of `length` residues cycling through the canonical codes.
pub fn generate_sequence(length: usize) -> (r: String)
    ensures
        r@.len() == length,
        forall|i: int| 0 <= i < length ==> #[trigger] r@[i] == CANONICAL_CODES@[i % 20],
{
    proof {
        reveal_strlit("ACDEFGHIKLMNPQRSTVWY");
    }
    let mut r = String::new();
    let mut i: usize = 0;
    while i < length
        invariant
            i <= length,
            CANONICAL_CODES@.len() == 20,
            r@.len() == i,
            forall|k: int| 0 <= k < i ==> #[trigger] r@[k] == CANONICAL_CODES@[k % 20],
        decreases length - i,
    {
        let k = i % 20;
        let code = CANONICAL_CODES.substring_char(k, k + 1);
        let ghost before = r@;
        r.append(code);
        assert(r@ =~= before.push(CANONICAL_CODES@[k as int]));
        i += 1;
    }
    r
}

/// Number of elements of `0..n - k`, or zero.
pub open spec fn count_after(n: usize, k: usize) -> nat {
    if n >= k {
        (n - k) as nat
    } else {
        0
    }
}

/// Consecutive residues `(i, i + 1)` of a chain of `n` residues: the bonded pairs.
pub fn bonded_pairs(n: usize) -> (r: Vec<(usize, usize)>)
    ensures
        r@.len() == count_after(n, 1),
        forall|k: int| 0 <= k < r@.len() ==> #[trigger] r@[k] == (k as usize, (k + 1) as usize),
{
    let mut r: Vec<(usize, usize)> = Vec::new();
    let mut i: usize = 0;
    while i + 1 < n
        invariant
            r@.len() == i,
            i <= count_after(n, 1),
            forall|k: int| 0 <= k < i ==> #[trigger] r@[k] == (k as usize, (k + 1) as usize),
        decreases n - i,
    {
        r.push((i, i + 1));
        i += 1;
    }
    r
}

/// Triples `(i, i + 1, i + 2)` of a chain of `n` residues: the bend angles, each at
/// its middle residue.
pub fn angle_triples(n: usize) -> (r: Vec<(usize, usize, usize)>)
    ensures
        r@.len() == count_after(n, 2),
        forall|k: int|
            0 <= k < r@.len() ==> #[trigger] r@[k] == (k as usize, (k + 1) as usize, (k + 2) as usize),
{
    let mut r: Vec<(usize, usize, usize)> = Vec::new();
    let mut i: usize = 0;
    while i + 2 < n
        invariant
            r@.len() == i,
            i <= count_after(n, 2),
            forall|k: int|
                0 <= k < i ==> #[trigger] r@[k] == (k as usize, (k + 1) as usize, (k + 2) as usize),
        decreases n - i,
    {
        r.push((i, i + 1, i + 2));
        i += 1;
    }
    r
}

/// Interior residues `1 ..= n - 2` of a chain of `n` residues: those whose stored
/// `phi`/`psi` enter the dihedral energy, in both force-field models.
pub fn dihedral_sites(n: usize) -> (r: Vec<usize>)
    ensures
        r@.len() == count_after(n, 2),
        forall|k: int| 0 <= k < r@.len() ==> #[trigger] r@[k] == (k + 1) as usize,
{
    let mut r: Vec<usize> = Vec::new();
    let mut i: usize = 1;
    while i + 1 < n
        invariant
            1 <= i,
            r@.len() == i - 1,
            i - 1 <= count_after(n, 2),
            forall|k: int| 0 <= k < r@.len() ==> #[trigger] r@[k] == (k + 1) as usize,
        decreases n - i,
    {
        r.push(i);
        i += 1;
    }
    r
}

/// The pairs `(i, j)` with `j` running from `i + sep` to `n - 1`.
pub open spec fn pair_row(n: nat, sep: nat, i: nat) -> Seq<(usize, usize)> {
    let len: int = if i + sep <= n { n - (i + sep) } else { 0 };
    Seq::new(len as nat, |t: int| (i as usize, (i + sep + t) as usize))
}

/// The rows `0 .. i` of pairs at sequence separation at least `sep`, in order.
pub open spec fn pair_rows(n: nat, sep: nat, i: nat) -> Seq<(usize, usize)>
    decreases i,
{
    if i == 0 {
        Seq::empty()
    } else {
        pair_rows(n, sep, (i - 1) as nat) + pair_row(n, sep, (i - 1) as nat)
    }
}

/// All pairs `(i, j)` of a chain of `n` residues with `j >= i + sep`, ordered by
/// `i` and then `j`.
pub open spec fn separated_pairs(n: nat, sep: nat) -> Seq<(usize, usize)> {
    pair_rows(n, sep, n)
}

/// Pairs of residues at least `sep` apart in sequence, ordered by first and then
/// second index. With `sep == 2` these are the non-bonded pairs (bonded neighbours
/// excluded); with `sep == 1`, every pair.
pub fn separated_pair_list(n: usize, sep: usize) -> (r: Vec<(usize, usize)>)
    requires
        sep >= 1,
    ensures
        r@ == separated_pairs(n as nat, sep as nat),
{
    let mut r: Vec<(usize, usize)> = Vec::new();
    let mut i: usize = 0;
    while i < n
        invariant
            i <= n,
            sep >= 1,
            r@ == pair_rows(n as nat, sep as nat, i as nat),
        decreases n - i,
    {
        let ghost before = r@;
        if sep <= n - i {
            let mut j: usize = i + sep;
            while j < n
                invariant
                    i < n,
                    i + sep <= j <= n,
                    r@ == before + pair_row(n as nat, sep as nat, i as nat).take(j - (i + sep)),
                decreases n - j,
            {
                let ghost prev = r@;
                r.push((i, j));
                assert(pair_row(n as nat, sep as nat, i as nat).take(j + 1 - (i + sep)) =~= pair_row(
                    n as nat,
                    sep as nat,
                    i as nat,
                ).take(j - (i + sep)).push((i, j)));
                j += 1;
            }
            assert(pair_row(n as nat, sep as nat, i as nat).take(n - (i + sep)) =~= pair_row(
                n as nat,
                sep as nat,
                i as nat,
            ));
        } else {
            assert(pair_row(n as nat, sep as nat, i as nat) =~= Seq::empty());
            assert(r@ =~= before + pair_row(n as nat, sep as nat, i as nat));
        }
        i += 1;
    }
    r
}

/// Every pair in row `i` lies in `0..n` with separation at least `sep`.
proof fn lemma_pair_rows_members(n: nat, sep: nat, i: nat, k: int)
    requires
        0 <= k < pair_rows(n, sep, i).len(),
        i <= n,
        n <= usize::MAX,
    ensures
        ({
            let p = pair_rows(n, sep, i)[k];
            &&& p.0 + sep <= p.1
            &&& p.1 < n
            &&& p.0 < i
        }),
    decreases i,
{
    let prev = pair_rows(n, sep, (i - 1) as nat);
    if k < prev.len() {
        lemma_pair_rows_members(n, sep, (i - 1) as nat, k);
    }
}

/// Every pair `(a, b)` with `b >= a + sep`, `b < n` and `a < i` lies in the rows up to `i`.
proof fn lemma_pair_rows_cover(n: nat, sep: nat, i: nat, a: usize, b: usize)
    requires
        a < i <= n,
        a + sep <= b < n,
        n <= usize::MAX,
    ensures
        pair_rows(n, sep, i).contains((a as usize, b as usize)),
    decreases i,
{
    let prev = pair_rows(n, sep, (i - 1) as nat);
    let row = pair_row(n, sep, (i - 1) as nat);
    if a < i - 1 {
        lemma_pair_rows_cover(n, sep, (i - 1) as nat, a, b);
        let k = choose|k: int| 0 <= k < prev.len() && prev[k] == (a as usize, b as usize);
        assert((prev + row)[k] == (a as usize, b as usize));
    } else {
        let t = b - (a + sep);
        assert(row[t] == (a as usize, b as usize));
        assert((prev + row)[prev.len() + t] == (a as usize, b as usize));
    }
}

/// The separated pairs are exactly the pairs `(a, b)` with `a + sep <= b < n`.
pub proof fn lemma_separated_pairs_members(n: nat, sep: nat, a: usize, b: usize)
    requires
        n <= usize::MAX,
    ensures
        separated_pairs(n, sep).contains((a as usize, b as usize)) <==> (a + sep <= b && b < n),
{
    if a + sep <= b && b < n {
        lemma_pair_rows_cover(n, sep, n, a, b);
    }
    if separated_pairs(n, sep).contains((a as usize, b as usize)) {
        let k = choose|k: int|
            0 <= k < separated_pairs(n, sep).len() && separated_pairs(n, sep)[k] == (
            a as usize,
            b as usize,
        );
        lemma_pair_rows_members(n, sep, n, k);
    }
}

} // verus!

verus! {

/// Largest element of a non-empty sequence of indices.
pub open spec fn max_index(targets: Seq<usize>) -> usize
    decreases targets.len(),
{
    if targets.len() <= 1 {
        targets[0]
    } else {
        let rest = max_index(targets.drop_last());
        if targets.last() > rest {
            targets.last()
        } else {
            rest
        }
    }
}

proof fn lemma_max_index_bounds(targets: Seq<usize>)
    requires
        targets.len() > 0,
    ensures
        forall|k: int| 0 <= k < targets.len() ==> #[trigger] targets[k] <= max_index(targets),
        exists|k: int| 0 <= k < targets.len() && targets[k] == max_index(targets),
    decreases targets.len(),
{
    if targets.len() > 1 {
        let init = targets.drop_last();
        lemma_max_index_bounds(init);
        assert forall|k: int| 0 <= k < targets.len() implies #[trigger] targets[k] <= max_index(
            targets,
        ) by {
            if k < init.len() {
                assert(init[k] == targets[k]);
            }
        }
        let k = choose|k: int| 0 <= k < init.len() && init[k] == max_index(init);
        assert(targets[k] == init[k]);
    } else {
        assert(targets[0] == max_index(targets));
    }
}

/// Length of the chain that rotation targets `targets` need: one past the largest
/// residue index, or zero when there are none.
pub open spec fn needed_length(targets: Seq<usize>) -> nat {
    if targets.len() == 0 {
        0
    } else {
        max_index(targets) as nat + 1
    }
}

/// Length of the smallest chain holding every rotation target: the largest residue
/// index plus one, or zero when no rotation names a residue.
pub fn compute_sequence_length(targets: &[usize]) -> (r: usize)
    requires
        forall|k: int| 0 <= k < targets@.len() ==> #[trigger] targets@[k] < usize::MAX,
    ensures
        r == needed_length(targets@),
        forall|k: int| 0 <= k < targets@.len() ==> #[trigger] targets@[k] < r,
{
    if targets.len() == 0 {
        return 0;
    }
    let mut best: usize = targets[0];
    let mut k: usize = 1;
    while k < targets.len()
        invariant
            1 <= k <= targets@.len(),
            best == max_index(targets@.take(k as int)),
        decreases targets@.len() - k,
    {
        assert(targets@.take(k + 1).drop_last() =~= targets@.take(k as int));
        if targets[k] > best {
            best = targets[k];
        }
        k += 1;
    }
    assert(targets@.take(targets@.len() as int) =~= targets@);
    proof {
        lemma_max_index_bounds(targets@);
    }
    best + 1
}

/// The generated sequence for a chain that holds every rotation target, or `None`
/// when no rotation names a residue.
pub fn chain_sequence_for_targets(targets: &[usize]) -> (r: Option<String>)
    requires
        forall|k: int| 0 <= k < targets@.len() ==> #[trigger] targets@[k] < usize::MAX,
    ensures
        r is None <==> targets@.len() == 0,
        r is Some ==> ({
            let s = r->Some_0@;
            &&& s.len() == needed_length(targets@)
            &&& forall|i: int| 0 <= i < s.len() ==> #[trigger] s[i] == CANONICAL_CODES@[i % 20]
        }),
{
    if targets.len() == 0 {
        return None;
    }
    Some(generate_sequence(compute_sequence_length(targets)))
}

} // verus!
