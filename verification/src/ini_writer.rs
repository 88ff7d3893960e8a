//! Writing settings in sections, as unit files and their like hold them.

use vstd::prelude::*;
use vstd::string::*;

verus! {

/// One section: its name and its entries, each a key with or without a value.
#[derive(Debug, Clone)]
pub struct Section {
    pub name: String,
    pub entries: Vec<(String, Option<String>)>,
}

/// The sections of a file, in the order in which they are written.
pub type Ini = Vec<Section>;

/// The line of one entry.
pub open spec fn entry_text(entry: (String, Option<String>)) -> Seq<char> {
    match entry.1 {
        Some(value) => entry.0@ + " = "@ + value@ + "\n"@,
        None => entry.0@ + "\n"@,
    }
}

/// The lines of `entries`, in their order.
pub open spec fn entries_text(entries: Seq<(String, Option<String>)>) -> Seq<char>
    decreases entries.len(),
{
    if entries.len() == 0 {
        Seq::<char>::empty()
    } else {
        entries_text(entries.drop_last()) + entry_text(entries.last())
    }
}

/// The text of the sections `ini`: for each its name in brackets on a line,
/// then its entries.
pub open spec fn ini_text(ini: Seq<Section>) -> Seq<char>
    decreases ini.len(),
{
    if ini.len() == 0 {
        Seq::<char>::empty()
    } else {
        ini_text(ini.drop_last()) + "["@ + ini.last().name@ + "]\n"@ + entries_text(
            ini.last().entries@,
        )
    }
}

/// Writes the sections `ini` as text.
pub fn to_ini(ini: &Ini) -> (out: String)
    ensures
        out@ == ini_text(ini@),
{
    let mut s = String::new();
    let mut i: usize = 0;
    assert(ini@.take(0) =~= Seq::<Section>::empty());
    while i < ini.len()
        invariant
            i <= ini.len(),
            s@ == ini_text(ini@.take(i as int)),
        decreases ini.len() - i,
    {
        let section = &ini[i];
        s.append("[");
        s.append(section.name.as_str());
        s.append("]\n");
        let ghost head = s@;
        let mut k: usize = 0;
        proof {
            assert(section.entries@.take(0) =~= Seq::<(String, Option<String>)>::empty());
            assert(s@ =~= head + entries_text(section.entries@.take(0)));
        }
        while k < section.entries.len()
            invariant
                k <= section.entries.len(),
                s@ == head + entries_text(section.entries@.take(k as int)),
            decreases section.entries.len() - k,
        {
            let ghost done = entries_text(section.entries@.take(k as int));
            let entry = &section.entries[k];
            proof {
                let next = section.entries@.take(k + 1);
                assert(next.drop_last() == section.entries@.take(k as int));
                assert(next.last() == *entry);
            }
            s.append(entry.0.as_str());
            match &entry.1 {
                Some(value) => {
                    s.append(" = ");
                    s.append(value.as_str());
                    s.append("\n");
                },
                None => {
                    s.append("\n");
                },
            }
            assert(s@ =~= head + (done + entry_text(*entry)));
            k = k + 1;
        }
        proof {
            assert(section.entries@.take(k as int) == section.entries@);
            let next = ini@.take(i + 1);
            assert(next.drop_last() == ini@.take(i as int));
            assert(next.last() == *section);
        }
        i = i + 1;
    }
    assert(ini@.take(i as int) == ini@);
    s
}

} // verus!
