//! Where the region files lie inside an archive, and the name of the archive
//! entry that holds a given region.
use vstd::prelude::*;
use vstd::std_specs::iter::IteratorSpec;

verus! {

broadcast use vstd::string::axiom_spec_iter, vstd::string::next_postcondition;

/// The characters of `s`, one by one.
fn chars_of(s: &str) -> (r: Vec<char>)
    ensures
        r@ == s@,
{
    let mut it = s.chars();
    let mut out: Vec<char> = Vec::new();
    loop
        invariant
            it.obeys_prophetic_iter_laws(),
            it.decrease() is Some,
            out@ + it.remaining() == s@,
        decreases it.decrease()->0,
    {
        match it.next() {
            Some(c) => {
                out.push(c);
            },
            None => {
                return out;
            },
        }
    }
}

/// The prefix under which region files lie when none is discovered.
pub const DEFAULT_REGION_PREFIX: &'static str = "region/";

/// Why no region folder could be chosen in an archive.
#[derive(Clone, Copy, Debug, PartialEq, Eq)]
pub enum LocatorError {
    /// No entry of the archive is a folder named `region`.
    NoRegionFolderFound,
    /// More than one entry is a folder named `region`.
    AmbiguousRegionFolder,
}

/// How the region prefix of an archive is chosen.
#[derive(Debug)]
pub enum RegionLayout {
    /// Look through the archive's entries for the one folder named `region`.
    AutoDiscover,
    /// Region files lie under this prefix.
    FixedPrefix(String),
}

/// A path separator: zip entry names may use either.
pub open spec fn is_separator(c: char) -> bool {
    c == '/' || c == '\\'
}

/// A path component that names a file or folder: not empty, `.` or `..`.
pub open spec fn is_normal(seg: Seq<char>) -> bool {
    &&& seg.len() > 0
    &&& seg != seq!['.']
    &&& seg != seq!['.', '.']
}

/// The last normal component of `s[0..i]` followed by the segment
/// `s[i..seg_end]`, scanning backwards; empty if there is none.
pub open spec fn last_normal_scan(s: Seq<char>, i: int, seg_end: int) -> Seq<char>
    decreases i,
{
    if i <= 0 {
        if is_normal(s.subrange(0, seg_end)) {
            s.subrange(0, seg_end)
        } else {
            Seq::empty()
        }
    } else if is_separator(s[i - 1]) {
        if is_normal(s.subrange(i, seg_end)) {
            s.subrange(i, seg_end)
        } else {
            last_normal_scan(s, i - 1, i - 1)
        }
    } else {
        last_normal_scan(s, i - 1, seg_end)
    }
}

/// The last component of path `s` that is not empty, `.` or `..`.
pub open spec fn last_normal_component(s: Seq<char>) -> Seq<char> {
    last_normal_scan(s, s.len() as int, s.len() as int)
}

/// `n` is where `name` is cut: its first NUL, or its end.
pub open spec fn is_nul_cut(name: Seq<char>, n: int) -> bool {
    &&& 0 <= n <= name.len()
    &&& forall|j: int| 0 <= j < n ==> name[j] != '\0'
    &&& (n == name.len() || name[n] == '\0')
}

/// The entry `name` is a folder named `region`: cut at its first NUL, with
/// `/` and `\` as separators and empty, `.` and `..` components left out,
/// its last component is `region`.
pub open spec fn is_region_folder(name: Seq<char>) -> bool {
    exists|n: int|
        is_nul_cut(name, n) && last_normal_component(#[trigger] name.take(n)) == seq![
            'r',
            'e',
            'g',
            'i',
            'o',
            'n',
        ]
}

/// How many of `names` are region folders.
pub open spec fn region_folder_count(names: Seq<Seq<char>>) -> nat
    decreases names.len(),
{
    if names.len() == 0 {
        0
    } else {
        region_folder_count(names.drop_last()) + if is_region_folder(names.last()) {
            1nat
        } else {
            0nat
        }
    }
}

/// The characters of each name.
pub open spec fn names_view(names: Seq<String>) -> Seq<Seq<char>> {
    names.map_values(|s: String| s@)
}

proof fn lemma_region_folder_cut(name: Seq<char>, n: int)
    requires
        is_nul_cut(name, n),
    ensures
        is_region_folder(name) == (last_normal_component(name.take(n)) == seq![
            'r',
            'e',
            'g',
            'i',
            'o',
            'n',
        ]),
{
    assert forall|m: int| is_nul_cut(name, m) implies m == n by {
        if m < n {
            assert(name[m] != '\0');
        } else if m > n {
            assert(name[n] != '\0');
        }
    }
}

/// Whether `cs[start..end]` is a normal component named `region`.
fn segment_is_region(cs: &Vec<char>, start: usize, end: usize) -> (r: (bool, bool))
    requires
        start <= end <= cs@.len(),
    ensures
        r.0 == is_normal(cs@.subrange(start as int, end as int)),
        r.1 == (cs@.subrange(start as int, end as int) == seq!['r', 'e', 'g', 'i', 'o', 'n']),
{
    let ghost seg = cs@.subrange(start as int, end as int);
    let len = end - start;
    let normal = !(len == 0 || (len == 1 && cs[start] == '.') || (len == 2 && cs[start] == '.'
        && cs[start + 1] == '.'));
    assert(normal == is_normal(seg)) by {
        let one = seq!['.'];
        let two = seq!['.', '.'];
        assert(one.len() == 1 && one[0] == '.');
        assert(two.len() == 2 && two[0] == '.' && two[1] == '.');
        assert(seg.len() == len);
        if len == 1 {
            assert(seg[0] == cs@[start as int]);
            if cs@[start as int] == '.' {
                assert(seg =~= one);
            }
        }
        if len == 2 {
            assert(seg[0] == cs@[start as int] && seg[1] == cs@[start + 1]);
            if cs@[start as int] == '.' && cs@[start + 1] == '.' {
                assert(seg =~= two);
            }
        }
    }
    let region = len == 6 && cs[start] == 'r' && cs[start + 1] == 'e' && cs[start + 2] == 'g'
        && cs[start + 3] == 'i' && cs[start + 4] == 'o' && cs[start + 5] == 'n';
    assert(region == (seg =~= seq!['r', 'e', 'g', 'i', 'o', 'n']));
    (normal, region)
}

/// Whether entry name `name` is a folder named `region`.
pub fn is_region_folder_name(name: &str) -> (r: bool)
    ensures
        r == is_region_folder(name@),
{
    let cs = chars_of(name);
    let mut n: usize = 0;
    while n < cs.len() && cs[n] != '\0'
        invariant
            n <= cs@.len(),
            forall|j: int| 0 <= j < n ==> cs@[j] != '\0',
        decreases cs@.len() - n,
    {
        n = n + 1;
    }
    let ghost s = name@.take(n as int);
    assert(is_nul_cut(name@, n as int));
    proof {
        lemma_region_folder_cut(name@, n as int);
    }
    let mut i: usize = n;
    let mut seg_end: usize = n;
    loop
        invariant
            i <= seg_end <= n <= cs@.len(),
            cs@ == name@,
            s == name@.take(n as int),
            last_normal_scan(s, i as int, seg_end as int) == last_normal_component(s),
            is_region_folder(name@) == (last_normal_component(s) == seq![
                'r',
                'e',
                'g',
                'i',
                'o',
                'n',
            ]),
        decreases i,
    {
        if i == 0 {
            let (normal, region) = segment_is_region(&cs, 0, seg_end);
            assert(s.subrange(0, seg_end as int) =~= cs@.subrange(0, seg_end as int));
            assert(Seq::<char>::empty().len() == 0);
            return normal && region;
        }
        assert(s[i - 1] == cs@[i - 1]);
        if cs[i - 1] == '/' || cs[i - 1] == '\\' {
            let (normal, region) = segment_is_region(&cs, i, seg_end);
            assert(s.subrange(i as int, seg_end as int) =~= cs@.subrange(i as int, seg_end as int));
            if normal {
                return region;
            }
            seg_end = i - 1;
        }
        i = i - 1;
    }
}

/// The decimal digit `d`, for `d < 10`.
pub open spec fn digit_char(d: nat) -> char {
    seq!['0', '1', '2', '3', '4', '5', '6', '7', '8', '9'][d as int]
}

/// The decimal digits of `n`, most significant first, without leading zeros.
pub open spec fn decimal_nat(n: nat) -> Seq<char>
    decreases n,
{
    if n < 10 {
        seq![digit_char(n)]
    } else {
        decimal_nat(n / 10).push(digit_char(n % 10))
    }
}

/// `n` in decimal, with a leading `-` when negative.
pub open spec fn decimal(n: int) -> Seq<char> {
    if n < 0 {
        seq!['-'] + decimal_nat((-n) as nat)
    } else {
        decimal_nat(n as nat)
    }
}

/// The name of the entry that holds region (`region_x`, `region_z`) under
/// `prefix`: `{prefix}r.{region_x}.{region_z}.mca`.
pub open spec fn entry_name(prefix: Seq<char>, region_x: int, region_z: int) -> Seq<char> {
    prefix + seq!['r', '.'] + decimal(region_x) + seq!['.'] + decimal(region_z) + seq![
        '.',
        'm',
        'c',
        'a',
    ]
}

/// The text of one decimal digit.
fn digit_str(d: u32) -> (r: &'static str)
    requires
        d < 10,
    ensures
        r@ == seq![digit_char(d as nat)],
{
    proof {
        reveal_strlit("0");
        reveal_strlit("1");
        reveal_strlit("2");
        reveal_strlit("3");
        reveal_strlit("4");
        reveal_strlit("5");
        reveal_strlit("6");
        reveal_strlit("7");
        reveal_strlit("8");
        reveal_strlit("9");
    }
    match d {
        0 => "0",
        1 => "1",
        2 => "2",
        3 => "3",
        4 => "4",
        5 => "5",
        6 => "6",
        7 => "7",
        8 => "8",
        _ => "9",
    }
}

/// Appends the decimal digits of `n` to `s`.
fn push_decimal_nat(s: &mut String, n: u32)
    ensures
        final(s)@ == old(s)@ + decimal_nat(n as nat),
    decreases n,
{
    if n >= 10 {
        push_decimal_nat(s, n / 10);
    }
    s.append(digit_str(n % 10));
    assert(s@ =~= old(s)@ + decimal_nat(n as nat));
}

/// Appends `n` in decimal to `s`.
fn push_decimal(s: &mut String, n: i32)
    ensures
        final(s)@ == old(s)@ + decimal(n as int),
{
    if n < 0 {
        proof {
            reveal_strlit("-");
        }
        s.append("-");
        let m: u32 = (-(n as i64)) as u32;
        push_decimal_nat(s, m);
        assert(final(s)@ =~= old(s)@ + decimal(n as int));
    } else {
        push_decimal_nat(s, n as u32);
    }
}

/// The folder inside an archive under which its region files lie.
pub struct RegionLocator {
    prefix: String,
}

impl View for RegionLocator {
    type V = Seq<char>;

    /// The prefix, which ends with the folder's separator when it was
    /// discovered from a folder entry.
    closed spec fn view(&self) -> Seq<char> {
        self.prefix@
    }
}

impl RegionLocator {
    /// A locator that takes region files from under `prefix`.
    pub fn with_prefix(prefix: String) -> (r: Self)
        ensures
            r@ == prefix@,
    {
        RegionLocator { prefix }
    }

    /// A locator that takes region files from under `region/`.
    pub fn default_prefix() -> (r: Self)
        ensures
            r@ == DEFAULT_REGION_PREFIX@,
    {
        RegionLocator { prefix: DEFAULT_REGION_PREFIX.to_owned() }
    }

    /// Finds the one entry among `names` whose last component is the folder
    /// `region`, and takes region files from under it.
    pub fn discover(names: &Vec<String>) -> (r: Result<Self, LocatorError>)
        ensures
            region_folder_count(names_view(names@)) == 0 <==> r == Err::<Self, _>(
                LocatorError::NoRegionFolderFound,
            ),
            region_folder_count(names_view(names@)) > 1 <==> r == Err::<Self, _>(
                LocatorError::AmbiguousRegionFolder,
            ),
            region_folder_count(names_view(names@)) == 1 <==> r is Ok,
            r matches Ok(l) ==> exists|i: int|
                0 <= i < names@.len() && is_region_folder(#[trigger] names@[i]@) && l@
                    == names@[i]@,
    {
        let ghost all = names_view(names@);
        let mut count: usize = 0;
        let mut found: Option<usize> = None;
        let mut i: usize = 0;
        while i < names.len()
            invariant
                0 <= i <= names@.len(),
                all == names_view(names@),
                count == region_folder_count(all.take(i as int)),
                count <= i,
                count == 0 <==> found is None,
                found matches Some(j) ==> j < i && is_region_folder(names@[j as int]@),
            decreases names@.len() - i,
        {
            assert(all.take(i as int + 1).drop_last() =~= all.take(i as int));
            if is_region_folder_name(names[i].as_str()) {
                count = count + 1;
                found = Some(i);
            }
            i = i + 1;
        }
        assert(all.take(i as int) =~= all);
        if count == 0 {
            Err(LocatorError::NoRegionFolderFound)
        } else if count > 1 {
            Err(LocatorError::AmbiguousRegionFolder)
        } else {
            match found {
                Some(j) => Ok(RegionLocator { prefix: names[j].clone() }),
                None => Err(LocatorError::NoRegionFolderFound),
            }
        }
    }

    /// A locator chosen as `layout` says, over the archive entries `names`.
    pub fn from_layout(layout: RegionLayout, names: &Vec<String>) -> (r: Result<
        Self,
        LocatorError,
    >)
        ensures
            layout matches RegionLayout::FixedPrefix(p) ==> r matches Ok(l) && l@ == p@,
            layout is AutoDiscover ==> {
                &&& region_folder_count(names_view(names@)) == 0 <==> r == Err::<Self, _>(
                    LocatorError::NoRegionFolderFound,
                )
                &&& region_folder_count(names_view(names@)) > 1 <==> r == Err::<Self, _>(
                    LocatorError::AmbiguousRegionFolder,
                )
                &&& region_folder_count(names_view(names@)) == 1 <==> r is Ok
                &&& r matches Ok(l) ==> exists|i: int|
                    0 <= i < names@.len() && is_region_folder(#[trigger] names@[i]@) && l@
                        == names@[i]@
            },
    {
        match layout {
            RegionLayout::AutoDiscover => Self::discover(names),
            RegionLayout::FixedPrefix(p) => Ok(Self::with_prefix(p)),
        }
    }

    /// The prefix under which region files lie.
    pub fn prefix(&self) -> (r: &str)
        ensures
            r@ == self@,
    {
        self.prefix.as_str()
    }

    /// The name of the entry that holds region (`region_x`, `region_z`):
    /// `{prefix}r.{region_x}.{region_z}.mca`.
    pub fn region_entry_name(&self, region_x: i32, region_z: i32) -> (r: String)
        ensures
            r@ == entry_name(self@, region_x as int, region_z as int),
    {
        let mut s = self.prefix.clone();
        proof {
            reveal_strlit("r.");
            reveal_strlit(".");
            reveal_strlit(".mca");
        }
        s.append("r.");
        push_decimal(&mut s, region_x);
        s.append(".");
        push_decimal(&mut s, region_z);
        s.append(".mca");
        assert(s@ =~= entry_name(self@, region_x as int, region_z as int));
        s
    }
}

} // verus!
