//! Where each virtual machine keeps its files: the directory of a machine and
//! the configuration, pid file, monitor socket and disk images inside it.

use crate::text::{
    ends_with, has_suffix, lemma_lex_le_total, lemma_lex_le_trans, lex_le, sorts_before, texts,
};
use crate::util::{is_valid_filename, valid_filename};
use crate::vm::VM;
use vstd::prelude::*;
use vstd::string::*;

verus! {

broadcast use {
    vstd::seq_lib::to_multiset_build,
    vstd::seq_lib::to_multiset_insert,
    Seq::lemma_filter_push,
};

/// The path reached from `base` by `name`: an absolute `name` stands alone,
/// otherwise the two are joined by one separator.
pub open spec fn joined(base: Seq<char>, name: Seq<char>) -> Seq<char> {
    if name.len() > 0 && name[0] == '/' {
        name
    } else if base.len() == 0 || base.last() == '/' {
        base + name
    } else {
        base + seq!['/'] + name
    }
}

/// The last component of `path`: what follows its last separator.
pub open spec fn last_component(path: Seq<char>) -> Seq<char>
    decreases path.len(),
{
    if path.len() == 0 || path.last() == '/' {
        Seq::<char>::empty()
    } else {
        last_component(path.drop_last()).push(path.last())
    }
}

/// The name of an image file made at `secs` seconds after the epoch.
pub open spec fn image_name(secs: nat) -> Seq<char> {
    "qemu-"@ + crate::text::decimal(secs) + ".qcow2"@
}

/// The name of the image file of the disk `disk`.
pub open spec fn image_file(disk: Seq<char>) -> Seq<char> {
    "qemu-"@ + disk + ".qcow2"@
}

/// Each text of `s` sorts before the ones after it.
pub open spec fn sorted(s: Seq<Seq<char>>) -> bool {
    forall|i: int, j: int| 0 <= i < j < s.len() ==> lex_le(#[trigger] s[i], #[trigger] s[j])
}

/// `path` names a disk image: it ends in the suffix of the image format.
pub open spec fn is_image(path: Seq<char>) -> bool {
    has_suffix(path, ".qcow2"@)
}

/// Joins `name` to `base` as a path.
pub fn join(base: &str, name: &str) -> (out: String)
    ensures
        out@ == joined(base@, name@),
{
    let nb: usize = base.unicode_len();
    let nn: usize = name.unicode_len();
    if nn > 0 && name.get_char(0) == '/' {
        return String::from_str(name);
    }
    let mut out = String::from_str(base);
    if nb > 0 && base.get_char(nb - 1) != '/' {
        out.push('/');
        proof {
            assert(base@.push('/') == base@ + seq!['/']);
        }
    }
    out.append(name);
    out
}

/// The last component of `path`: what follows its last separator.
pub fn file_name(path: &str) -> (out: String)
    ensures
        out@ == last_component(path@),
{
    let n: usize = path.unicode_len();
    let mut start: usize = n;
    assert(path@.subrange(n as int, n as int) =~= Seq::<char>::empty());
    assert(path@.take(n as int) == path@);
    while start > 0 && path.get_char(start - 1) != '/'
        invariant
            start <= n,
            n == path@.len(),
            last_component(path@) == last_component(path@.take(start as int)) + path@.subrange(
                start as int,
                n as int,
            ),
        decreases start,
    {
        proof {
            let head = path@.take(start as int);
            assert(head.last() == path@[start - 1]);
            assert(head.drop_last() == path@.take(start - 1));
            assert(last_component(head) == last_component(head.drop_last()).push(head.last()));
            assert(last_component(head.drop_last()).push(head.last()) + path@.subrange(
                start as int,
                n as int,
            ) =~= last_component(head.drop_last()) + path@.subrange(start - 1, n as int));
        }
        start = start - 1;
    }
    proof {
        let head = path@.take(start as int);
        if start > 0 {
            assert(head.last() == path@[start - 1]);
        }
        assert(last_component(head) == Seq::<char>::empty());
        assert(Seq::<char>::empty() + path@.subrange(start as int, n as int) == path@.subrange(
            start as int,
            n as int,
        ));
    }
    String::from_str(path.substring_char(start, n))
}

/// The image files among `entries`, the paths found in the directory of one
/// machine, in sorted order.
pub fn sorted_images(entries: &Vec<String>) -> (out: Vec<String>)
    ensures
        sorted(texts(out@)),
        texts(out@).to_multiset() == texts(entries@).filter(|p: Seq<char>| is_image(p)).to_multiset(),
{
    let ghost pred = |p: Seq<char>| is_image(p);
    let mut out: Vec<String> = Vec::new();
    let mut i: usize = 0;
    assert(texts(entries@).take(0) =~= Seq::<Seq<char>>::empty());
    assert(texts(out@) =~= Seq::<Seq<char>>::empty());
    proof {
        reveal(Seq::filter);
        assert(Seq::<Seq<char>>::empty().filter(pred) =~= Seq::<Seq<char>>::empty());
    }
    while i < entries.len()
        invariant
            i <= entries.len(),
            pred == (|p: Seq<char>| is_image(p)),
            sorted(texts(out@)),
            texts(out@).to_multiset() == texts(entries@).take(i as int).filter(pred).to_multiset(),
        decreases entries.len() - i,
    {
        let ghost before = texts(out@);
        let ghost seen = texts(entries@).take(i as int);
        proof {
            assert(texts(entries@).take(i + 1) == seen.push(entries@[i as int]@));
        }
        if ends_with(entries[i].as_str(), ".qcow2") {
            let item = entries[i].clone();
            let at = insertion_point(&out, item.as_str());
            out.insert(at, item);
            proof {
                assert(texts(out@) =~= before.insert(at as int, item@));
                assert(pred(item@));
                assert forall|a: int, b: int| 0 <= a < b < texts(out@).len() implies lex_le(
                    #[trigger] texts(out@)[a],
                    #[trigger] texts(out@)[b],
                ) by {
                    let ta = texts(out@)[a];
                    let tb = texts(out@)[b];
                    if a == at {
                        assert(tb == before[b - 1]);
                    } else if b == at {
                        assert(ta == before[a]);
                    } else {
                        let a0 = if a < at { a } else { a - 1 };
                        let b0 = if b < at { b } else { b - 1 };
                        assert(ta == before[a0] && tb == before[b0]);
                    }
                }
            }
        } else {
            proof {
                assert(!pred(entries@[i as int]@));
            }
        }
        i = i + 1;
    }
    assert(texts(entries@).take(i as int) == texts(entries@));
    out
}

/// Where `item` belongs in the sorted `list`: after all that sort before it.
fn insertion_point(list: &Vec<String>, item: &str) -> (at: usize)
    requires
        sorted(texts(list@)),
    ensures
        at <= list.len(),
        forall|j: int| 0 <= j < at ==> lex_le(#[trigger] texts(list@)[j], item@),
        forall|j: int| at <= j < list.len() ==> lex_le(item@, #[trigger] texts(list@)[j]),
{
    let mut at: usize = 0;
    while at < list.len()
        invariant
            at <= list.len(),
            sorted(texts(list@)),
            forall|j: int| 0 <= j < at ==> lex_le(#[trigger] texts(list@)[j], item@),
        decreases list.len() - at,
    {
        if !sorts_before(list[at].as_str(), item) {
            proof {
                let pivot = texts(list@)[at as int];
                lemma_lex_le_total(pivot, item@);
                assert forall|j: int| at <= j < list.len() implies lex_le(
                    item@,
                    #[trigger] texts(list@)[j],
                ) by {
                    if j > at {
                        lemma_lex_le_trans(item@, pivot, texts(list@)[j]);
                    }
                }
            }
            return at;
        }
        at = at + 1;
    }
    at
}

/// The sum of the sizes of the files of one machine, unless it exceeds what
/// a `u64` holds.
pub fn total_size(sizes: &Vec<u64>) -> (out: Option<u64>)
    ensures
        out == (if sum(sizes@) <= u64::MAX {
            Some(sum(sizes@) as u64)
        } else {
            None
        }),
{
    let mut total: u64 = 0;
    let mut i: usize = 0;
    assert(sizes@.take(0) =~= Seq::<u64>::empty());
    while i < sizes.len()
        invariant
            i <= sizes.len(),
            total == sum(sizes@.take(i as int)),
        decreases sizes.len() - i,
    {
        proof {
            assert(sizes@.take(i + 1).drop_last() == sizes@.take(i as int));
            lemma_sum_prefix(sizes@, i + 1);
        }
        if sizes[i] > u64::MAX - total {
            return None;
        }
        total = total + sizes[i];
        i = i + 1;
    }
    assert(sizes@.take(i as int) == sizes@);
    Some(total)
}

/// The sum of the numbers of `s`.
pub open spec fn sum(s: Seq<u64>) -> nat
    decreases s.len(),
{
    if s.len() == 0 {
        0
    } else {
        sum(s.drop_last()) + s.last() as nat
    }
}

/// A prefix never sums to more than the whole.
pub proof fn lemma_sum_prefix(s: Seq<u64>, i: int)
    requires
        0 <= i <= s.len(),
    ensures
        sum(s.take(i)) <= sum(s),
    decreases s.len(),
{
    if i == s.len() {
        assert(s.take(i) == s);
    } else {
        assert(s.drop_last().take(i) == s.take(i));
        lemma_sum_prefix(s.drop_last(), i);
    }
}

/// The name of a new image file, from the seconds since the epoch at which it is made.
pub fn qemu_img_name(secs: u64) -> (name: String)
    ensures
        name@ == image_name(secs as nat),
{
    let mut name = String::from_str("qemu-");
    crate::text::push_decimal(&mut name, secs);
    name.append(".qcow2");
    name
}

/// Those of `names` that can be the name of a machine, in their order.
pub open spec fn machine_names(names: Seq<Seq<char>>) -> Seq<Seq<char>>
    decreases names.len(),
{
    if names.len() == 0 {
        Seq::<Seq<char>>::empty()
    } else if is_valid_filename(names.last()) {
        machine_names(names.drop_last()).push(names.last())
    } else {
        machine_names(names.drop_last())
    }
}

/// The layout of the machines below one base directory.
#[derive(Debug, Clone)]
pub struct XDGConfigStorage {
    base: String,
}

impl XDGConfigStorage {
    /// The base directory.
    pub closed spec fn base(&self) -> Seq<char> {
        self.base@
    }

    /// The layout below `base`.
    pub fn new(base: String) -> (out: Self)
        ensures
            out.base() == base@,
    {
        Self { base }
    }

    /// The base directory.
    pub fn base_path(&self) -> (path: String)
        ensures
            path@ == self.base(),
    {
        self.base.clone()
    }

    /// The directory of `vm`: the base directory and, as its last component,
    /// the name of the machine.
    pub fn vm_root(&self, vm: &VM) -> (path: String)
        ensures
            path@ == joined(self.base(), vm.name_text()),
            is_valid_filename(vm.name_text()),
            last_component(path@) == vm.name_text(),
    {
        let name = vm.name();
        proof {
            lemma_name_round_trip(self.base@, name@);
        }
        join(self.base.as_str(), name.as_str())
    }

    /// The file `filename` of `vm`; a `filename` that is not one component
    /// of a path is refused.
    pub fn vm_path(&self, vm: &VM, filename: &str) -> (out: Result<String, crate::error::Error>)
        ensures
            out is Ok <==> is_valid_filename(filename@),
            out is Ok ==> out->Ok_0@ == joined(joined(self.base(), vm.name_text()), filename@),
            out is Err ==> out->Err_0@ == "path contains invalid characters"@,
    {
        if !valid_filename(filename) {
            return Err(crate::error::Error::new("path contains invalid characters"));
        }
        let root = self.vm_root(vm);
        Ok(join(root.as_str(), filename))
    }

    /// The file that holds the process id of the detached emulator of `vm`.
    pub fn pidfile(&self, vm: &VM) -> (path: String)
        ensures
            path@ == joined(joined(self.base(), vm.name_text()), "pid"@),
    {
        let root = self.vm_root(vm);
        join(root.as_str(), "pid")
    }

    /// The file that holds the configuration of `vm`.
    pub fn config_path(&self, vm: &VM) -> (path: String)
        ensures
            path@ == joined(joined(self.base(), vm.name_text()), "config"@),
    {
        let root = self.vm_root(vm);
        join(root.as_str(), "config")
    }

    /// The monitor socket of `vm`.
    pub fn monitor_path(&self, vm: &VM) -> (path: String)
        ensures
            path@ == joined(joined(self.base(), vm.name_text()), "mon"@),
    {
        let root = self.vm_root(vm);
        join(root.as_str(), "mon")
    }

    /// The image file of the disk `disk` of `vm`; a `disk` whose image file
    /// would not lie in the directory of the machine is refused.
    pub fn disk_path(&self, vm: &VM, disk: &str) -> (out: Result<String, crate::error::Error>)
        ensures
            out is Ok <==> is_valid_filename(image_file(disk@)),
            out is Ok ==> out->Ok_0@ == joined(
                joined(self.base(), vm.name_text()),
                image_file(disk@),
            ),
            out is Err ==> out->Err_0@ == "path contains invalid characters"@,
    {
        let mut file = String::from_str("qemu-");
        file.append(disk);
        file.append(".qcow2");
        self.vm_path(vm, file.as_str())
    }

    /// The machines among `names`, the names found in the base directory:
    /// one for each name that can be the name of a machine, in their order,
    /// each as a machine is before its files are read.
    pub fn vm_list(&self, names: &Vec<String>) -> (out: Vec<VM>)
        ensures
            out@.map_values(|vm: VM| vm@.name) == machine_names(texts(names@)),
            forall|i: int|
                0 <= i < out.len() ==> (#[trigger] out@[i])@ == VM::fresh(out@[i]@.name),
    {
        let mut out: Vec<VM> = Vec::new();
        let mut i: usize = 0;
        proof {
            assert(texts(names@).take(0) =~= Seq::<Seq<char>>::empty());
            assert(out@.map_values(|vm: VM| vm@.name) =~= Seq::<Seq<char>>::empty());
        }
        while i < names.len()
            invariant
                i <= names.len(),
                out@.map_values(|vm: VM| vm@.name) == machine_names(texts(names@).take(i as int)),
                forall|j: int|
                    0 <= j < out.len() ==> (#[trigger] out@[j])@ == VM::fresh(out@[j]@.name),
            decreases names.len() - i,
        {
            let ghost before = out@.map_values(|vm: VM| vm@.name);
            proof {
                let next = texts(names@).take(i + 1);
                assert(next.drop_last() == texts(names@).take(i as int));
                assert(next.last() == names@[i as int]@);
            }
            match VM::new(names[i].clone()) {
                Ok(vm) => {
                    out.push(vm);
                    assert(out@.map_values(|vm: VM| vm@.name) =~= before.push(names@[i as int]@));
                },
                Err(_) => {},
            }
            i = i + 1;
        }
        assert(texts(names@).take(i as int) == texts(names@));
        out
    }

    /// The disk images of `vm` among `entries`, the paths found in its
    /// directory: exactly those that end in the image suffix, sorted.
    pub fn disk_list(&self, entries: &Vec<String>) -> (out: Vec<String>)
        ensures
            sorted(texts(out@)),
            texts(out@).to_multiset() == texts(entries@).filter(
                |p: Seq<char>| is_image(p),
            ).to_multiset(),
    {
        sorted_images(entries)
    }
}

/// A name with a usable form reaches a path whose last component is that name.
pub proof fn lemma_name_round_trip(base: Seq<char>, name: Seq<char>)
    requires
        is_valid_filename(name),
    ensures
        last_component(joined(base, name)) == name,
    decreases name.len(),
{
    lemma_last_component_append(
        if base.len() == 0 || base.last() == '/' {
            base
        } else {
            base + seq!['/']
        },
        name,
    );
    if !(base.len() == 0 || base.last() == '/') {
        assert(base + seq!['/'] + name == (base + seq!['/']) + name);
    }
    if name.len() > 0 {
        assert(name[0] != '/') by {
            if name[0] == '/' {
                assert(name.contains('/'));
            }
        }
    }
}

/// The last component of a path that ends in a name without separators,
/// written behind a separator or behind nothing, is that name.
pub proof fn lemma_last_component_append(head: Seq<char>, name: Seq<char>)
    requires
        !name.contains('/'),
        head.len() == 0 || head.last() == '/',
    ensures
        last_component(head + name) == name,
    decreases name.len(),
{
    if name.len() == 0 {
        assert(head + name == head);
    } else {
        let whole = head + name;
        assert(whole.last() == name.last());
        assert(name.contains(name.last()));
        assert(whole.drop_last() == head + name.drop_last());
        assert forall|c: char| name.drop_last().contains(c) implies name.contains(c) by {
            let i = choose|i: int| 0 <= i < name.drop_last().len() && name.drop_last()[i] == c;
            assert(name[i] == c);
        }
        lemma_last_component_append(head, name.drop_last());
        assert(name.drop_last().push(name.last()) == name);
    }
}

/// A name with a separator in it is not the last component of any path it reaches.
pub proof fn lemma_separator_breaks_round_trip(base: Seq<char>, name: Seq<char>)
    requires
        name.contains('/'),
    ensures
        last_component(joined(base, name)) != name,
{
    lemma_last_component_plain(joined(base, name));
}

/// A last component holds no separator.
pub proof fn lemma_last_component_plain(path: Seq<char>)
    ensures
        !last_component(path).contains('/'),
    decreases path.len(),
{
    if path.len() == 0 || path.last() == '/' {
    } else {
        lemma_last_component_plain(path.drop_last());
        let inner = last_component(path.drop_last());
        if inner.push(path.last()).contains('/') {
            let i = choose|i: int|
                0 <= i < inner.push(path.last()).len() && inner.push(path.last())[i] == '/';
            if i < inner.len() {
                assert(inner[i] == '/');
                assert(inner.contains('/'));
            }
        }
    }
}

/// A machine directory, by the name of the machine and the directory it lies
/// in. The name is one component of a path.
#[derive(Debug)]
pub struct StoragePath {
    name: String,
    base: String,
}

impl Clone for StoragePath {
    fn clone(&self) -> (out: Self)
        ensures
            out.name() == self.name(),
            out.base() == self.base(),
    {
        proof {
            use_type_invariant(self);
        }
        StoragePath { name: self.name.clone(), base: self.base.clone() }
    }
}

impl StoragePath {
    #[verifier::type_invariant]
    spec fn well_formed(self) -> bool {
        is_valid_filename(self.name@)
    }

    /// The name of the machine.
    pub closed spec fn name(&self) -> Seq<char> {
        self.name@
    }

    /// The directory that holds the machine directory.
    pub closed spec fn base(&self) -> Seq<char> {
        self.base@
    }

    /// The directory of the machine `name` below `base`; a name that holds
    /// `..`, a path separator or NUL names no machine and is refused.
    pub fn new(name: String, base: String) -> (out: Result<Self, crate::vm::InvalidName>)
        ensures
            out is Ok <==> is_valid_filename(name@),
            out is Ok ==> out->Ok_0.name() == name@ && out->Ok_0.base() == base@,
    {
        if !valid_filename(name.as_str()) {
            return Err(crate::vm::InvalidName);
        }
        Ok(Self { name, base })
    }

    /// The path of the machine directory: the base and, as its last
    /// component, the name of the machine.
    pub fn with_base(&self) -> (path: String)
        ensures
            path@ == joined(self.base(), self.name()),
            is_valid_filename(self.name()),
            last_component(path@) == self.name(),
    {
        proof {
            use_type_invariant(self);
            lemma_name_round_trip(self.base@, self.name@);
        }
        join(self.base.as_str(), self.name.as_str())
    }

    /// The line that shows the machine with the text of its size.
    pub fn label(&self, size: &str) -> (out: String)
        ensures
            out@ == self.name() + " ("@ + size@ + ")"@,
    {
        let mut out = self.name.clone();
        out.append(" (");
        out.append(size);
        out.append(")");
        out
    }
}

/// The layout of the machines below one base directory, by machine name;
/// names that cannot be one path component are refused.
#[derive(Debug, Clone)]
pub struct DirectoryStorageHandler {
    pub basedir: String,
}

impl DirectoryStorageHandler {
    /// The layout below `basedir`.
    pub fn new(basedir: String) -> (out: Self)
        ensures
            out.basedir@ == basedir@,
    {
        Self { basedir }
    }

    /// Whether `name` can serve as one component of a path.
    pub fn valid_filename(&self, name: &str) -> (ok: bool)
        ensures
            ok == is_valid_filename(name@),
    {
        valid_filename(name)
    }

    /// The base directory.
    pub fn base_path(&self) -> (path: String)
        ensures
            path@ == self.basedir@,
    {
        self.basedir.clone()
    }

    /// The directory of the machine `name`.
    pub fn vm_root(&self, name: &str) -> (out: Result<String, crate::error::Error>)
        ensures
            out is Ok <==> is_valid_filename(name@),
            out is Ok ==> out->Ok_0@ == joined(self.basedir@, name@),
            out is Err ==> out->Err_0@ == "path contains invalid characters"@,
    {
        if !valid_filename(name) {
            return Err(crate::error::Error::new("path contains invalid characters"));
        }
        Ok(join(self.basedir.as_str(), name))
    }

    /// The file `filename` of the machine `name`.
    pub fn vm_path(&self, name: &str, filename: &str) -> (out: Result<String, crate::error::Error>)
        ensures
            out is Ok <==> is_valid_filename(name@) && is_valid_filename(filename@),
            out is Ok ==> out->Ok_0@ == joined(joined(self.basedir@, name@), filename@),
            out is Err ==> out->Err_0@ == "path contains invalid characters"@,
    {
        if !valid_filename(name) || !valid_filename(filename) {
            return Err(crate::error::Error::new("path contains invalid characters"));
        }
        let root = join(self.basedir.as_str(), name);
        Ok(join(root.as_str(), filename))
    }

    /// The monitor socket of the machine `name`.
    pub fn monitor_path(&self, name: &str) -> (out: Result<String, crate::error::Error>)
        ensures
            out is Ok <==> is_valid_filename(name@),
            out is Ok ==> out->Ok_0@ == joined(joined(self.basedir@, name@), "mon"@),
            out is Err ==> out->Err_0@ == "path contains invalid characters"@,
    {
        match self.vm_root(name) {
            Ok(root) => Ok(join(root.as_str(), "mon")),
            Err(e) => Err(e),
        }
    }

    /// The pid file of the machine `name`.
    pub fn pidfile(&self, name: &str) -> (out: Result<String, crate::error::Error>)
        ensures
            out is Ok <==> is_valid_filename(name@),
            out is Ok ==> out->Ok_0@ == joined(joined(self.basedir@, name@), "pid"@),
            out is Err ==> out->Err_0@ == "path contains invalid characters"@,
    {
        match self.vm_root(name) {
            Ok(root) => Ok(join(root.as_str(), "pid")),
            Err(e) => Err(e),
        }
    }

    /// The machine directories for the names found in the base directory:
    /// one for each name that can be the name of a machine, in their order.
    pub fn vm_list(&self, names: Vec<String>) -> (out: Vec<StoragePath>)
        ensures
            out@.map_values(|p: StoragePath| p.name()) == machine_names(texts(names@)),
            forall|i: int| 0 <= i < out.len() ==> (#[trigger] out@[i]).base() == self.basedir@,
    {
        let mut out: Vec<StoragePath> = Vec::new();
        let mut i: usize = 0;
        proof {
            assert(texts(names@).take(0) =~= Seq::<Seq<char>>::empty());
            assert(out@.map_values(|p: StoragePath| p.name()) =~= Seq::<Seq<char>>::empty());
        }
        while i < names.len()
            invariant
                i <= names.len(),
                out@.map_values(|p: StoragePath| p.name()) == machine_names(
                    texts(names@).take(i as int),
                ),
                forall|j: int| 0 <= j < out.len() ==> (#[trigger] out@[j]).base() == self.basedir@,
            decreases names.len() - i,
        {
            let ghost before = out@.map_values(|p: StoragePath| p.name());
            proof {
                let next = texts(names@).take(i + 1);
                assert(next.drop_last() == texts(names@).take(i as int));
                assert(next.last() == names@[i as int]@);
            }
            match StoragePath::new(names[i].clone(), self.basedir.clone()) {
                Ok(path) => {
                    out.push(path);
                    assert(out@.map_values(|p: StoragePath| p.name()) =~= before.push(
                        names@[i as int]@,
                    ));
                },
                Err(_) => {},
            }
            i = i + 1;
        }
        assert(texts(names@).take(i as int) == texts(names@));
        out
    }
}

/// The unit files of the service manager, by machine name.
#[derive(Debug, Clone)]
pub struct SystemdStorage {
    basedir: String,
}

impl SystemdStorage {
    /// The directory of the unit files.
    pub closed spec fn basedir(&self) -> Seq<char> {
        self.basedir@
    }

    /// The unit files below the user's configuration directory `path`.
    pub fn new(path: String) -> (out: Self)
        ensures
            out.basedir() == joined(path@, "systemd/user"@),
    {
        Self { basedir: join(path.as_str(), "systemd/user") }
    }

    /// The unit file of the machine `vm_name`.
    pub fn service_filename(&self, vm_name: &str) -> (out: Result<String, crate::error::Error>)
        ensures
            out is Ok <==> is_valid_filename(vm_name@),
            out is Ok ==> out->Ok_0@ == joined(self.basedir(), "emu."@ + vm_name@ + ".service"@),
            out is Err ==> out->Err_0@ == "invalid vm name"@,
    {
        if !valid_filename(vm_name) {
            return Err(crate::error::Error::new("invalid vm name"));
        }
        let mut file = String::from_str("emu.");
        file.append(vm_name);
        file.append(".service");
        Ok(join(self.basedir.as_str(), file.as_str()))
    }
}

} // verus!
