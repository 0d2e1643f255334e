use vstd::prelude::*;
use vstd::utf8::{decode_utf8, encode_utf8, valid_utf8};
use crate::dict::Dict;

verus! {

/// What `String::from_utf8_lossy` makes of the bytes `b`.
pub uninterp spec fn utf8_lossy(b: Seq<u8>) -> Seq<char>;

/// `String::from_utf8_lossy`, made owned. Its documentation: valid UTF-8
/// comes back as the text it encodes; invalid sequences become U+FFFD,
/// which is left unsaid here beyond the name of the result.
#[verifier::external_body]
pub(crate) fn lossy_string(b: &[u8]) -> (r: String)
    ensures
        r@ == utf8_lossy(b@),
        valid_utf8(b@) ==> r@ == decode_utf8(b@),
{
    String::from_utf8_lossy(b).into_owned()
}

/// The commands that loaded packages offer: each command's name, with the
/// name of its package and the handle of its callback.
pub struct LanguagePackages {
    pub inner: Dict<(String, u64)>,
}

/// The commands after importing `methods`, in order, from the package
/// named `name`: a later command of the same name replaces an earlier one.
pub open spec fn import_fold(
    m: Map<Seq<char>, (Seq<char>, u64)>,
    name: Seq<char>,
    methods: Seq<(String, u64)>,
) -> Map<Seq<char>, (Seq<char>, u64)>
    decreases methods.len(),
{
    if methods.len() == 0 {
        m
    } else {
        import_fold(m, name, methods.drop_last()).insert(
            methods.last().0@,
            (name, methods.last().1),
        )
    }
}

/// A command's package name and callback, with the name as characters.
pub open spec fn command_view(p: (String, u64)) -> (Seq<char>, u64) {
    (p.0@, p.1)
}

impl LanguagePackages {
    /// The commands by name: each with its package's name and its callback.
    pub open spec fn commands(self) -> Map<Seq<char>, (Seq<char>, u64)> {
        self.inner.view().map_values(|p: (String, u64)| command_view(p))
    }

    /// No commands.
    pub fn new() -> (r: Self)
        ensures
            r.inner.wf(),
            r.commands() == Map::<Seq<char>, (Seq<char>, u64)>::empty(),
    {
        proof {
            assert(Map::<Seq<char>, (String, u64)>::empty().map_values(|p: (String, u64)| command_view(p))
                =~= Map::<Seq<char>, (Seq<char>, u64)>::empty());
        }
        LanguagePackages { inner: Dict::new() }
    }

    fn add_all(&mut self, name: &String, methods: &Vec<(String, u64)>)
        ensures
            old(self).inner.wf() ==> final(self).inner.wf(),
            final(self).commands() == import_fold(old(self).commands(), name@, methods@),
    {
        let mut i: usize = 0;
        while i < methods.len()
            invariant
                i <= methods@.len(),
                old(self).inner.wf() ==> self.inner.wf(),
                self.commands() == import_fold(
                    old(self).commands(),
                    name@,
                    methods@.take(i as int),
                ),
            decreases methods@.len() - i,
        {
            let (k, h) = (methods[i].0.clone(), methods[i].1);
            let ghost before = self.inner.view();
            let n = name.clone();
            self.inner.insert(k, (n, h));
            proof {
                assert(self.commands() =~= before.map_values(|p: (String, u64)| command_view(p)).insert(
                    k@,
                    (name@, h),
                ));
                assert(methods@.take(i + 1).drop_last() =~= methods@.take(i as int));
            }
            i = i + 1;
        }
        proof {
            assert(methods@.take(i as int) =~= methods@);
        }
    }

    /// Imports a package whose name is given as bytes: its commands, then
    /// the commands that it adds at run time.
    pub fn import_dyn(&mut self, name: &[u8], methods: &Vec<(String, u64)>, dyn_methods: &Vec<(String, u64)>)
        ensures
            old(self).inner.wf() ==> final(self).inner.wf(),
            final(self).commands() == import_fold(
                import_fold(old(self).commands(), utf8_lossy(name@), methods@),
                utf8_lossy(name@),
                dyn_methods@,
            ),
    {
        let n = lossy_string(name);
        self.add_all(&n, methods);
        self.add_all(&n, dyn_methods);
    }

    /// Imports a package: its commands, then those it adds at run time.
    pub fn import(&mut self, pkg: &ImplPackage)
        ensures
            old(self).inner.wf() ==> final(self).inner.wf(),
            final(self).commands() == import_fold(
                import_fold(old(self).commands(), utf8_lossy(pkg.name@), pkg.methods@),
                utf8_lossy(pkg.name@),
                dyn_pairs(pkg.dyn_methods@),
            ),
    {
        let pairs = pkg.dyn_commands();
        self.import_dyn(pkg.name.as_slice(), &pkg.methods, &pairs)
    }

    /// The commands, in the order of their import: each command's name with
    /// the name of its package.
    pub fn list(&self) -> (r: Vec<(String, String)>)
        ensures
            r@.len() == self.inner.entries_seq().len(),
            forall|i: int|
                0 <= i < r@.len() ==> (#[trigger] r@[i]).0@ == self.inner.entries_seq()[i].0@
                    && r@[i].1@ == self.inner.entries_seq()[i].1.0@,
    {
        let entries = self.inner.entries();
        let mut out: Vec<(String, String)> = Vec::new();
        let mut i: usize = 0;
        while i < entries.len()
            invariant
                i <= entries@.len(),
                entries@ == self.inner.entries_seq(),
                out@.len() == i,
                forall|j: int|
                    0 <= j < i ==> (#[trigger] out@[j]).0@ == entries@[j].0@ && out@[j].1@
                        == entries@[j].1.0@,
            decreases entries@.len() - i,
        {
            out.push((entries[i].0.clone(), entries[i].1.0.clone()));
            i = i + 1;
        }
        out
    }
}

/// Importing a package makes each of its commands resolve to that package,
/// to the callback of the last command of that name.
pub proof fn law_imported_commands_resolve(
    m: Map<Seq<char>, (Seq<char>, u64)>,
    name: Seq<char>,
    methods: Seq<(String, u64)>,
    i: int,
)
    requires
        0 <= i < methods.len(),
        forall|j: int| i < j < methods.len() ==> methods[j].0@ != methods[i].0@,
    ensures
        import_fold(m, name, methods).contains_key(methods[i].0@),
        import_fold(m, name, methods)[methods[i].0@] == (name, methods[i].1),
    decreases methods.len(),
{
    if i < methods.len() - 1 {
        let t = methods.drop_last();
        assert forall|j: int| i < j < t.len() implies t[j].0@ != t[i].0@ by {
            assert(t[j] == methods[j]);
        }
        assert(t[i] == methods[i]);
        law_imported_commands_resolve(m, name, t, i);
    }
}

/// A package assembled at run time: its name as bytes, its commands, and
/// the commands added to it one by one, each with its documentation.
pub struct ImplPackage {
    pub methods: Vec<(String, u64)>,
    pub name: Vec<u8>,
    pub dyn_methods: Vec<(String, String, u64)>,
}

/// The added commands without their documentation.
pub open spec fn dyn_pairs(d: Seq<(String, String, u64)>) -> Seq<(String, u64)> {
    d.map_values(|e: (String, String, u64)| (e.0, e.2))
}

/// The bytes of `ImplPackage [struct]`, the name of a package made with `new`.
pub open spec fn default_package_name() -> Seq<u8> {
    seq![
        73u8, 109u8, 112u8, 108u8, 80u8, 97u8, 99u8, 107u8, 97u8, 103u8, 101u8, 32u8, 91u8,
        115u8, 116u8, 114u8, 117u8, 99u8, 116u8, 93u8,
    ]
}

impl Default for ImplPackage {
    fn default() -> (r: Self)
        ensures
            r.methods@.len() == 0,
            r.name@.len() == 0,
            r.dyn_methods@.len() == 0,
    {
        ImplPackage { methods: Vec::new(), name: Vec::new(), dyn_methods: Vec::new() }
    }
}

impl ImplPackage {
    /// A package named `ImplPackage [struct]`, without commands.
    pub fn new() -> (r: Self)
        ensures
            r.methods@.len() == 0,
            r.name@ == default_package_name(),
            r.dyn_methods@.len() == 0,
    {
        let name: Vec<u8> = vec![
            73u8, 109u8, 112u8, 108u8, 80u8, 97u8, 99u8, 107u8, 97u8, 103u8, 101u8, 32u8, 91u8,
            115u8, 116u8, 114u8, 117u8, 99u8, 116u8, 93u8,
        ];
        proof {
            assert(name@ =~= default_package_name());
        }
        ImplPackage { methods: Vec::new(), name, dyn_methods: Vec::new() }
    }

    /// The package under the name `name`.
    pub fn set_name(self, name: &str) -> (r: Self)
        ensures
            r.name@ == encode_utf8(name@),
            r.methods == self.methods,
            r.dyn_methods == self.dyn_methods,
    {
        let mut p = self;
        p.name = name.as_bytes_vec();
        p
    }

    /// The package with the command `name`, documented by `doc`, added.
    pub fn add_method(self, name: String, doc: String, callback: u64) -> (r: Self)
        ensures
            r.dyn_methods@ == self.dyn_methods@.push((name, doc, callback)),
            r.methods == self.methods,
            r.name == self.name,
    {
        let mut p = self;
        p.dyn_methods.push((name, doc, callback));
        p
    }

    /// The name, as bytes.
    pub fn name(&self) -> (r: &Vec<u8>)
        ensures
            *r == self.name,
    {
        &self.name
    }

    /// The commands given at construction.
    pub fn methods(&self) -> (r: &Vec<(String, u64)>)
        ensures
            *r == self.methods,
    {
        &self.methods
    }

    /// The added commands without their documentation.
    pub fn dyn_commands(&self) -> (r: Vec<(String, u64)>)
        ensures
            r@ == dyn_pairs(self.dyn_methods@),
    {
        let mut out: Vec<(String, u64)> = Vec::new();
        let mut i: usize = 0;
        while i < self.dyn_methods.len()
            invariant
                i <= self.dyn_methods@.len(),
                out@ == dyn_pairs(self.dyn_methods@.take(i as int)),
            decreases self.dyn_methods@.len() - i,
        {
            let e = &self.dyn_methods[i];
            out.push((e.0.clone(), e.2));
            proof {
                assert(dyn_pairs(self.dyn_methods@.take(i + 1)) =~= dyn_pairs(
                    self.dyn_methods@.take(i as int),
                ).push((e.0, e.2)));
            }
            i = i + 1;
        }
        proof {
            assert(self.dyn_methods@.take(i as int) =~= self.dyn_methods@);
        }
        out
    }
}

} // verus!
