use vstd::prelude::*;
use crate::cli::{info_row, pad_right, pad_spec};
use crate::text::{decimal, trim, trim_spec, u64_to_string, views};

verus! {

/// The memory of the machine, in bytes, as the operating system reports it.
pub struct System {
    pub total: u64,
    pub avail: u64,
}

/// A processor of the machine; its brand name is asked of the operating
/// system.
pub struct Cpu;

impl System {
    /// Brings the figures up to date: they are read once, when the system
    /// is first asked, so nothing changes.
    pub fn refresh_all(&mut self) -> (r: &mut Self)
        ensures
            *r == *old(self),
            *final(self) == *final(r),
    {
        self
    }

    /// The processors: one, whose brand the operating system names.
    pub fn cpus(&self) -> (r: [Cpu; 1]) {
        [Cpu]
    }

    /// The memory in use: all of it but what is available.
    pub fn used_memory(&self) -> (r: u64)
        requires
            self.avail <= self.total,
        ensures
            r == self.total - self.avail,
    {
        self.total_memory() - self.avail
    }

    /// All the memory.
    pub fn total_memory(&self) -> (r: u64)
        ensures
            r == self.total,
    {
        self.total
    }
}

/// The row `label: value` of the system information.
pub open spec fn row(label: Seq<char>, value: Seq<char>) -> Seq<char> {
    pad_spec(label, 8) + seq![':', ' '] + value
}

/// The memory shown in megabytes: used, a slash, total, and `MB`.
pub open spec fn memory_text(used: u64, total: u64) -> Seq<char> {
    decimal((used / 1000000) as nat) + seq!['/'] + decimal((total / 1000000) as nat) + seq![
        ' ',
        'M',
        'B',
    ]
}

/// What the operating system says of the processor and the memory.
pub struct MachineInfo {
    pub cpu_brand: String,
    pub used_memory: u64,
    pub total_memory: u64,
}

/// The lines of system information shown beside the logo: the operating
/// system, architecture and family; the processor and the memory where the
/// system can tell them; then the Lead version and target.
pub fn get_sys_info(
    os: &str,
    arch: &str,
    family: &str,
    machine: &Option<MachineInfo>,
    version: &str,
    target: &str,
) -> (r: Vec<String>)
    ensures
        views(r@) == seq![
            seq!['S', 'y', 's', 't', 'e', 'm', ' ', 'S', 'p', 'e', 'c', 'i', 'f', 'i', 'c', 'a', 't', 'i', 'o', 'n', 's'],
            row(seq!['O', 'S'], os@),
            row(seq!['A', 'r', 'c', 'h'], arch@),
            row(seq!['F', 'a', 'm', 'i', 'l', 'y'], family@),
        ] + match machine {
            Some(m) => seq![
                row(seq!['C', 'P', 'U'], trim_spec(m.cpu_brand@)),
                row(seq!['M', 'e', 'm', 'o', 'r', 'y'], memory_text(m.used_memory, m.total_memory)),
            ],
            None => Seq::<Seq<char>>::empty(),
        } + seq![
            Seq::<char>::empty(),
            seq!['L', 'e', 'a', 'd', ' ', 'L', 'a', 'n', 'g', 'u', 'a', 'g', 'e'],
            row(seq!['V', 'e', 'r', 's', 'i', 'o', 'n'], version@),
            row(seq!['T', 'a', 'r', 'g', 'e', 't'], target@),
        ],
{
    let title = "System Specifications";
    let l_os = "OS";
    let l_arch = "Arch";
    let l_family = "Family";
    let l_cpu = "CPU";
    let l_mem = "Memory";
    let l_lead = "Lead Language";
    let l_version = "Version";
    let l_target = "Target";
    let slash = "/";
    let mb = " MB";
    proof {
        reveal_strlit("System Specifications");
        reveal_strlit("OS");
        reveal_strlit("Arch");
        reveal_strlit("Family");
        reveal_strlit("CPU");
        reveal_strlit("Memory");
        reveal_strlit("Lead Language");
        reveal_strlit("Version");
        reveal_strlit("Target");
        reveal_strlit("/");
        reveal_strlit(" MB");
        reveal_strlit("");
    }
    proof {
        assert(title@ =~= seq!['S', 'y', 's', 't', 'e', 'm', ' ', 'S', 'p', 'e', 'c', 'i', 'f', 'i', 'c', 'a', 't', 'i', 'o', 'n', 's']);
        assert(l_os@ =~= seq!['O', 'S']);
        assert(l_arch@ =~= seq!['A', 'r', 'c', 'h']);
        assert(l_family@ =~= seq!['F', 'a', 'm', 'i', 'l', 'y']);
        assert(l_cpu@ =~= seq!['C', 'P', 'U']);
        assert(l_mem@ =~= seq!['M', 'e', 'm', 'o', 'r', 'y']);
        assert(l_lead@ =~= seq!['L', 'e', 'a', 'd', ' ', 'L', 'a', 'n', 'g', 'u', 'a', 'g', 'e']);
        assert(l_version@ =~= seq!['V', 'e', 'r', 's', 'i', 'o', 'n']);
        assert(l_target@ =~= seq!['T', 'a', 'r', 'g', 'e', 't']);
        assert(slash@ =~= seq!['/']);
        assert(mb@ =~= seq![' ', 'M', 'B']);
    }
    let head = vec![
        String::from_str(title),
        info_row(l_os, os),
        info_row(l_arch, arch),
        info_row(l_family, family),
    ];
    let empty = "";
    proof {
        reveal_strlit("");
        assert(empty@ =~= Seq::<char>::empty());
    }
    let tail = vec![
        String::from_str(empty),
        String::from_str(l_lead),
        info_row(l_version, version),
        info_row(l_target, target),
    ];
    let mid: Vec<String> = match machine {
        Some(m) => {
            let text = u64_to_string(m.used_memory / 1000000).concat(slash).concat(
                u64_to_string(m.total_memory / 1000000).as_str(),
            ).concat(mb);
            proof {
                assert(text@ =~= memory_text(m.used_memory, m.total_memory));
            }
            vec![info_row(l_cpu, trim(m.cpu_brand.as_str())), info_row(l_mem, text.as_str())]
        },
        None => Vec::new(),
    };
    let mut out = head;
    let mut mid = mid;
    let mut tail = tail;
    let ghost hv = views(out@);
    let ghost mv = views(mid@);
    let ghost tv = views(tail@);
    out.append(&mut mid);
    out.append(&mut tail);
    proof {
        assert(views(out@) =~= hv + mv + tv);
        assert(hv =~= seq![
            seq!['S', 'y', 's', 't', 'e', 'm', ' ', 'S', 'p', 'e', 'c', 'i', 'f', 'i', 'c', 'a', 't', 'i', 'o', 'n', 's'],
            row(seq!['O', 'S'], os@),
            row(seq!['A', 'r', 'c', 'h'], arch@),
            row(seq!['F', 'a', 'm', 'i', 'l', 'y'], family@),
        ]);
        assert(tv =~= seq![
            Seq::<char>::empty(),
            seq!['L', 'e', 'a', 'd', ' ', 'L', 'a', 'n', 'g', 'u', 'a', 'g', 'e'],
            row(seq!['V', 'e', 'r', 's', 'i', 'o', 'n'], version@),
            row(seq!['T', 'a', 'r', 'g', 'e', 't'], target@),
        ]);
        match machine {
            Some(m) => {
                assert(mv =~= seq![
                    row(seq!['C', 'P', 'U'], trim_spec(m.cpu_brand@)),
                    row(seq!['M', 'e', 'm', 'o', 'r', 'y'], memory_text(m.used_memory, m.total_memory)),
                ]);
            },
            None => {
                assert(mv =~= Seq::<Seq<char>>::empty());
            },
        }
    }
    out
}

/// The text beside each of the `rows` rows of the logo: the lines of system
/// information in order, then nothing, each padded to sixty characters.
pub fn logo_text(sysinfo: &Vec<String>, rows: usize) -> (r: Vec<String>)
    ensures
        r@.len() == rows,
        forall|i: int|
            0 <= i < rows ==> (#[trigger] r@[i])@ == pad_spec(
                if i < sysinfo@.len() {
                    sysinfo@[i]@
                } else {
                    Seq::empty()
                },
                60,
            ),
{
    let mut out: Vec<String> = Vec::new();
    let mut i: usize = 0;
    proof {
        reveal_strlit("");
    }
    while i < rows
        invariant
            i <= rows,
            out@.len() == i,
            forall|j: int|
                0 <= j < i ==> (#[trigger] out@[j])@ == pad_spec(
                    if j < sysinfo@.len() {
                        sysinfo@[j]@
                    } else {
                        Seq::empty()
                    },
                    60,
                ),
        decreases rows - i,
    {
        proof {
            reveal_strlit("");
        }
        let line = if i < sysinfo.len() {
            pad_right(sysinfo[i].as_str(), 60)
        } else {
            pad_right("", 60)
        };
        out.push(line);
        i = i + 1;
    }
    out
}

} // verus!
