//! Disks: reading what the partition editor lists.

use vstd::prelude::*;
use vstd::string::*;
use crate::text::{chars_of, slice_of, split, split_chars, string_of};

verus! {

/// The disk that the system runs from.
pub const ROOT_DISK: &'static str = "/dev/mmcblk0";

/// The disk that holds the data of the packages.
pub const MAIN_DISK: &'static str = "/dev/sda";

/// What is known of one partition.
#[derive(Debug)]
pub struct PartitionInfo {
    pub is_mounted: bool,
    pub size: Option<String>,
    pub label: Option<String>,
}

/// One partition under its name.
#[derive(Debug)]
pub struct Partition {
    pub logicalname: String,
    pub info: PartitionInfo,
}

/// What is known of one disk.
#[derive(Debug)]
pub struct DiskInfo {
    pub size: String,
    pub description: Option<String>,
    pub partitions: Vec<Partition>,
}

/// One disk under its name.
#[derive(Debug)]
pub struct Disk {
    pub logicalname: String,
    pub info: DiskInfo,
}

/// The disks of the host, in the order in which they were listed.
#[derive(Debug)]
pub struct Disks(pub Vec<Disk>);

/// The parts of `s` between occurrences of an empty line, read from place
/// `from` on, where the part being read began at `start`.
pub open spec fn blocks_from(s: Seq<char>, from: int, start: int) -> Seq<Seq<char>>
    decreases s.len() - from,
{
    if from < 0 || from + 1 >= s.len() {
        seq![s.subrange(start, s.len() as int)]
    } else if s[from] == '\n' && s[from + 1] == '\n' {
        seq![s.subrange(start, from)] + blocks_from(s, from + 2, from + 2)
    } else {
        blocks_from(s, from + 1, start)
    }
}

/// The blocks of a listing: its parts between empty lines.
pub open spec fn blocks(s: Seq<char>) -> Seq<Seq<char>> {
    blocks_from(s, 0, 0)
}

/// A partition as a plain value: its name and its size.
pub type PartitionView = (Seq<char>, Option<Seq<char>>);

/// A disk as a plain value: its name, its size, its description, and its
/// partitions.
pub struct DiskView {
    pub logicalname: Seq<char>,
    pub size: Seq<char>,
    pub description: Option<Seq<char>>,
    pub partitions: Seq<PartitionView>,
}

/// Is `c` a decimal digit?
pub open spec fn is_digit(c: char) -> bool {
    '0' <= c && c <= '9'
}

/// What the names of the partitions of disk `logicalname` begin with: the
/// name of the disk, with a `p` after a name that ends in a digit.
pub open spec fn partition_prefix(logicalname: Seq<char>) -> Seq<char> {
    if logicalname.len() > 0 && is_digit(logicalname.last()) {
        logicalname.push('p')
    } else {
        logicalname
    }
}

/// The partition that a line of a block speaks of: its name is the prefix
/// followed by the first field, and in a block that gives sizes its size is
/// the fourth field. A line that lacks that field speaks of no partition.
pub open spec fn partition_of(line: Seq<char>, prefix: Seq<char>, has_size: bool) -> Option<
    PartitionView,
> {
    let fields = split(line, ':');
    if has_size {
        if fields.len() >= 4 {
            Some((prefix + fields[0], Some(fields[3])))
        } else {
            None
        }
    } else {
        Some((prefix + fields[0], None))
    }
}

/// The partitions that the lines from `from` on speak of.
pub open spec fn partitions_of(lines: Seq<Seq<char>>, prefix: Seq<char>, has_size: bool, from: int)
    -> Seq<PartitionView>
    decreases lines.len() - from,
{
    if from < 0 || from >= lines.len() {
        Seq::empty()
    } else {
        match partition_of(lines[from], prefix, has_size) {
            Some(p) => seq![p] + partitions_of(lines, prefix, has_size, from + 1),
            None => partitions_of(lines, prefix, has_size, from + 1),
        }
    }
}

/// The disk that a block speaks of. The first line says whether sizes are
/// given: they are exactly if it reads `BYT;`. The second line describes the
/// disk in fields between colons: its name, its size, and as the seventh its
/// description, which may be empty. Every further line speaks of a
/// partition. A block without second line, or with fewer than seven fields
/// in it, speaks of no disk.
pub open spec fn disk_of(block: Seq<char>) -> Option<DiskView> {
    let lines = split(block, '\n');
    if lines.len() < 2 {
        None
    } else {
        let fields = split(lines[1], ':');
        if fields.len() < 7 {
            None
        } else {
            Some(
                DiskView {
                    logicalname: fields[0],
                    size: fields[1],
                    description: if fields[6].len() == 0 {
                        None
                    } else {
                        Some(fields[6])
                    },
                    partitions: partitions_of(
                        lines,
                        partition_prefix(fields[0]),
                        lines[0] == "BYT;"@,
                        2,
                    ),
                },
            )
        }
    }
}

/// The disks that the blocks from `from` on speak of.
pub open spec fn disks_of(blocks: Seq<Seq<char>>, from: int) -> Seq<DiskView>
    decreases blocks.len() - from,
{
    if from < 0 || from >= blocks.len() {
        Seq::empty()
    } else {
        match disk_of(blocks[from]) {
            Some(d) => seq![d] + disks_of(blocks, from + 1),
            None => disks_of(blocks, from + 1),
        }
    }
}

/// Is nothing known yet of whether the partition is mounted, nor of its
/// label?
pub open spec fn unprobed(p: Partition) -> bool {
    !p.info.is_mounted && p.info.label is None
}

/// Is nothing known yet of any partition of the disk?
pub open spec fn all_unprobed(d: Disk) -> bool {
    forall|j: int| 0 <= j < d.info.partitions@.len() ==> unprobed(#[trigger] d.info.partitions@[j])
}

/// A partition as a plain value.
pub open spec fn partition_view(p: Partition) -> PartitionView {
    (
        p.logicalname@,
        match p.info.size {
            Some(s) => Some(s@),
            None => None,
        },
    )
}

/// A disk as a plain value.
pub open spec fn disk_view(d: Disk) -> DiskView {
    DiskView {
        logicalname: d.logicalname@,
        size: d.info.size@,
        description: match d.info.description {
            Some(s) => Some(s@),
            None => None,
        },
        partitions: Seq::new(
            d.info.partitions@.len(),
            |i: int| partition_view(d.info.partitions@[i]),
        ),
    }
}

/// The blocks of a listing.
fn split_blocks(s: &Vec<char>) -> (parts: Vec<Vec<char>>)
    ensures
        parts@.len() == blocks(s@).len(),
        forall|i: int| 0 <= i < parts@.len() ==> (#[trigger] parts@[i])@ == blocks(s@)[i],
{
    let mut parts: Vec<Vec<char>> = Vec::new();
    let mut start: usize = 0;
    let mut i: usize = 0;
    let ghost all = blocks(s@);
    let n = s.len();
    while n >= 2 && i < n - 1
        invariant
            n == s@.len(),
            start <= i <= n,
            all == blocks(s@),
            all.len() == parts@.len() + blocks_from(s@, i as int, start as int).len(),
            forall|k: int|
                0 <= k < blocks_from(s@, i as int, start as int).len() ==> all[parts@.len() + k]
                    == blocks_from(s@, i as int, start as int)[k],
            forall|k: int| 0 <= k < parts@.len() ==> (#[trigger] parts@[k])@ == all[k],
        decreases n - i,
    {
        let ghost rest = blocks_from(s@, i as int, start as int);
        if s[i] == '\n' && s[i + 1] == '\n' {
            parts.push(slice_of(s, start, i));
            proof {
                let next = blocks_from(s@, i as int + 2, i as int + 2);
                assert(rest =~= seq![s@.subrange(start as int, i as int)] + next);
                assert(all[parts@.len() - 1] == rest[0]);
                assert forall|k: int| 0 <= k < next.len() implies all[parts@.len() + k]
                    == next[k] by {
                    assert(rest[k + 1] == next[k]);
                }
            }
            start = i + 2;
            i = i + 2;
        } else {
            i = i + 1;
        }
    }
    proof {
        let rest = blocks_from(s@, i as int, start as int);
        assert(rest.len() == 1);
        assert(all[parts@.len() as int] == rest[0]);
    }
    parts.push(slice_of(s, start, n));
    parts
}

/// Are the characters those of `BYT;`?
fn is_byt(line: &Vec<char>) -> (b: bool)
    ensures
        b == (line@ == "BYT;"@),
{
    proof {
        reveal_strlit("BYT;");
    }
    if line.len() == 4 && line[0] == 'B' && line[1] == 'Y' && line[2] == 'T' && line[3] == ';' {
        assert(line@ =~= "BYT;"@);
        true
    } else {
        false
    }
}

fn concat(a: &Vec<char>, b: &Vec<char>) -> (s: String)
    ensures
        s@ == a@ + b@,
{
    let mut s = string_of(a);
    s.append(string_of(b).as_str());
    s
}

/// The partitions that the lines from `from` on speak of.
fn parse_partitions(lines: &Vec<Vec<char>>, prefix: &Vec<char>, has_size: bool) -> (r: Vec<
    Partition,
>)
    ensures
        Seq::new(r@.len(), |i: int| partition_view(r@[i])) == partitions_of(
            Seq::new(lines@.len(), |i: int| lines@[i]@),
            prefix@,
            has_size,
            2,
        ),
        forall|j: int| 0 <= j < r@.len() ==> unprobed(#[trigger] r@[j]),
{
    let ghost texts = Seq::new(lines@.len(), |i: int| lines@[i]@);
    let mut r: Vec<Partition> = Vec::new();
    let mut i: usize = 2;
    if lines.len() < 2 {
        assert(Seq::new(r@.len(), |i: int| partition_view(r@[i])) =~= Seq::empty());
        return r;
    }
    assert(Seq::new(r@.len(), |i: int| partition_view(r@[i])) =~= Seq::empty());
    while i < lines.len()
        invariant
            2 <= i <= lines@.len(),
            texts == Seq::new(lines@.len(), |i: int| lines@[i]@),
            forall|j: int| 0 <= j < r@.len() ==> unprobed(#[trigger] r@[j]),
            partitions_of(texts, prefix@, has_size, 2) == Seq::new(
                r@.len(),
                |k: int| partition_view(r@[k]),
            ) + partitions_of(texts, prefix@, has_size, i as int),
        decreases lines@.len() - i,
    {
        let fields = split_chars(&lines[i], ':');
        let ghost before = Seq::new(r@.len(), |k: int| partition_view(r@[k]));
        let ghost rest = partitions_of(texts, prefix@, has_size, i as int + 1);
        assert(texts[i as int] == lines@[i as int]@);
        if has_size {
            if fields.len() >= 4 {
                let p = Partition {
                    logicalname: concat(prefix, &fields[0]),
                    info: PartitionInfo {
                        is_mounted: false,
                        size: Some(string_of(&fields[3])),
                        label: None,
                    },
                };
                r.push(p);
                assert(Seq::new(r@.len(), |k: int| partition_view(r@[k])) =~= before + seq![
                    partition_view(p),
                ]);
                assert(before + (seq![partition_view(p)] + rest) =~= before + seq![
                    partition_view(p),
                ] + rest);
            }
        } else {
            let p = Partition {
                logicalname: concat(prefix, &fields[0]),
                info: PartitionInfo { is_mounted: false, size: None, label: None },
            };
            r.push(p);
            assert(Seq::new(r@.len(), |k: int| partition_view(r@[k])) =~= before + seq![
                partition_view(p),
            ]);
            assert(before + (seq![partition_view(p)] + rest) =~= before + seq![
                partition_view(p),
            ] + rest);
        }
        i = i + 1;
    }
    assert(partitions_of(texts, prefix@, has_size, i as int) =~= Seq::empty());
    r
}

/// The disk that a block speaks of.
fn parse_disk(block: &Vec<char>) -> (r: Option<Disk>)
    ensures
        r is Some <==> disk_of(block@) is Some,
        r matches Some(d) ==> Some(disk_view(d)) == disk_of(block@) && all_unprobed(d),
{
    let lines = split_chars(block, '\n');
    if lines.len() < 2 {
        return None;
    }
    let fields = split_chars(&lines[1], ':');
    if fields.len() < 7 {
        return None;
    }
    let has_size = is_byt(&lines[0]);
    let name = &fields[0];
    let mut prefix = slice_of(name, 0, name.len());
    assert(prefix@ =~= name@);
    if name.len() > 0 && name[name.len() - 1] >= '0' && name[name.len() - 1] <= '9' {
        prefix.push('p');
    }
    let partitions = parse_partitions(&lines, &prefix, has_size);
    proof {
        assert(Seq::new(lines@.len(), |i: int| lines@[i]@) =~= split(block@, '\n'));
    }
    let description = if fields[6].len() == 0 {
        None
    } else {
        Some(string_of(&fields[6]))
    };
    Some(
        Disk {
            logicalname: string_of(name),
            info: DiskInfo { size: string_of(&fields[1]), description, partitions },
        },
    )
}

/// Reads what the partition editor lists in machine-readable form: one
/// block per disk, the blocks parted by empty lines. Nothing is known yet of
/// whether a partition is mounted, nor of its label: every partition is
/// listed as not mounted and without label.
pub fn list(output: &str) -> (disks: Disks)
    ensures
        Seq::new(disks.0@.len(), |i: int| disk_view(disks.0@[i])) == disks_of(blocks(output@), 0),
        forall|i: int| 0 <= i < disks.0@.len() ==> all_unprobed(#[trigger] disks.0@[i]),
{
    let chars = chars_of(output);
    let parts = split_blocks(&chars);
    let ghost texts = blocks(output@);
    let mut disks: Vec<Disk> = Vec::new();
    let mut i: usize = 0;
    assert(Seq::new(disks@.len(), |k: int| disk_view(disks@[k])) =~= Seq::empty());
    while i < parts.len()
        invariant
            i <= parts@.len(),
            parts@.len() == texts.len(),
            forall|k: int| 0 <= k < parts@.len() ==> (#[trigger] parts@[k])@ == texts[k],
            forall|k: int| 0 <= k < disks@.len() ==> all_unprobed(#[trigger] disks@[k]),
            disks_of(texts, 0) == Seq::new(disks@.len(), |k: int| disk_view(disks@[k])) + disks_of(
                texts,
                i as int,
            ),
        decreases parts@.len() - i,
    {
        let ghost before = Seq::new(disks@.len(), |k: int| disk_view(disks@[k]));
        let ghost rest = disks_of(texts, i as int + 1);
        match parse_disk(&parts[i]) {
            Some(d) => {
                let ghost view = disk_view(d);
                disks.push(d);
                assert(Seq::new(disks@.len(), |k: int| disk_view(disks@[k])) =~= before + seq![
                    view,
                ]);
                assert(before + (seq![view] + rest) =~= before + seq![view] + rest);
            },
            None => {},
        }
        i = i + 1;
    }
    assert(disks_of(texts, i as int) =~= Seq::empty());
    Disks(disks)
}

/// Is `c` white space? Blank, tab, line feed and carriage return count.
pub open spec fn is_space(c: char) -> bool {
    c == ' ' || c == '\t' || c == '\n' || c == '\r'
}

/// The number of white-space characters that `s` begins with.
pub open spec fn leading_space(s: Seq<char>) -> int
    decreases s.len(),
{
    if s.len() > 0 && is_space(s[0]) {
        1 + leading_space(s.drop_first())
    } else {
        0
    }
}

/// The number of white-space characters that `s` ends in.
pub open spec fn trailing_space(s: Seq<char>) -> int
    decreases s.len(),
{
    if s.len() > 0 && is_space(s.last()) {
        1 + trailing_space(s.drop_last())
    } else {
        0
    }
}

/// `s` without the white space around it.
pub open spec fn stripped(s: Seq<char>) -> Seq<char> {
    let from = leading_space(s);
    if from >= s.len() {
        Seq::empty()
    } else {
        s.subrange(from, s.len() - trailing_space(s))
    }
}

proof fn leading_space_counts(s: Seq<char>)
    ensures
        0 <= leading_space(s) <= s.len(),
        forall|i: int| 0 <= i < leading_space(s) ==> is_space(s[i]),
        leading_space(s) < s.len() ==> !is_space(s[leading_space(s)]),
    decreases s.len(),
{
    if s.len() > 0 && is_space(s[0]) {
        let rest = s.drop_first();
        leading_space_counts(rest);
        assert forall|i: int| 0 <= i < leading_space(s) implies is_space(s[i]) by {
            if i > 0 {
                assert(s[i] == rest[i - 1]);
            }
        }
        if leading_space(s) < s.len() {
            assert(s[leading_space(s)] == rest[leading_space(rest)]);
        }
    }
}

proof fn trailing_space_counts(s: Seq<char>)
    ensures
        0 <= trailing_space(s) <= s.len(),
        forall|i: int| s.len() - trailing_space(s) <= i < s.len() ==> is_space(s[i]),
        trailing_space(s) < s.len() ==> !is_space(s[s.len() - trailing_space(s) - 1]),
    decreases s.len(),
{
    if s.len() > 0 && is_space(s.last()) {
        let rest = s.drop_last();
        trailing_space_counts(rest);
        assert forall|i: int| s.len() - trailing_space(s) <= i < s.len() implies is_space(
            s[i],
        ) by {
            if i < rest.len() {
                assert(s[i] == rest[i]);
            }
        }
        if trailing_space(s) < s.len() {
            assert(s[s.len() - trailing_space(s) - 1] == rest[rest.len() - trailing_space(rest)
                - 1]);
        }
    }
}

fn space(c: char) -> (b: bool)
    ensures
        b == is_space(c),
{
    c == ' ' || c == '\t' || c == '\n' || c == '\r'
}

impl PartitionInfo {
    /// Takes in what probing the partition gave: the label is what the
    /// probe printed, without the white space around it, where that is not
    /// empty; and the partition counts as mounted where the probe says so.
    /// What was known before stays where the probe adds nothing.
    pub fn probed(&mut self, label: &str, mounted: bool)
        ensures
            final(self).size == old(self).size,
            final(self).is_mounted == (old(self).is_mounted || mounted),
            stripped(label@).len() == 0 ==> final(self).label == old(self).label,
            stripped(label@).len() > 0 ==> final(self).label is Some && final(self).label->0@
                == stripped(label@),
    {
        let chars = chars_of(label);
        let n = chars.len();
        proof {
            leading_space_counts(label@);
            trailing_space_counts(label@);
        }
        let mut from: usize = 0;
        while from < n && space(chars[from])
            invariant
                n == chars@.len(),
                chars@ == label@,
                from <= n,
                from <= leading_space(label@),
                0 <= leading_space(label@) <= label@.len(),
                forall|i: int| 0 <= i < leading_space(label@) ==> is_space(label@[i]),
                leading_space(label@) < label@.len() ==> !is_space(label@[leading_space(label@)]),
            decreases n - from,
        {
            from = from + 1;
        }
        assert(from == leading_space(label@));
        if from < n {
            let mut to: usize = n;
            while to > 0 && space(chars[to - 1])
                invariant
                    n == chars@.len(),
                    chars@ == label@,
                    to <= n,
                    n - to <= trailing_space(label@),
                    0 <= trailing_space(label@) <= label@.len(),
                    forall|i: int|
                        label@.len() - trailing_space(label@) <= i < label@.len() ==> is_space(
                            label@[i],
                        ),
                    trailing_space(label@) < label@.len() ==> !is_space(
                        label@[label@.len() - trailing_space(label@) - 1],
                    ),
                decreases to,
            {
                to = to - 1;
            }
            assert(n - to == trailing_space(label@));
            assert(!is_space(label@[from as int]));
            assert(from < to) by {
                if to <= from {
                    assert(is_space(label@[from as int]));
                }
            }
            let text = slice_of(&chars, from, to);
            self.label = Some(string_of(&text));
        }
        if mounted {
            self.is_mounted = true;
        }
    }
}

} // verus!
