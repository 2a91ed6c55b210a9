use vstd::prelude::*;

verus! {

/// The materials known to a renderer, by name: each distinct name has one slot, and
/// slots are numbered in order of registration. Slot 0, the first registered material,
/// is the one that meshes without a known material use.
pub struct MaterialRegistry {
    names: Vec<String>,
}

impl View for MaterialRegistry {
    type V = Seq<Seq<char>>;

    /// The registered names, by slot.
    closed spec fn view(&self) -> Seq<Seq<char>> {
        self.names@.map_values(|s: String| s@)
    }
}

/// The slot of a registered name.
pub open spec fn name_slot(names: Seq<Seq<char>>, name: Seq<char>) -> int {
    choose|i: int| 0 <= i < names.len() && names[i] == name
}

impl MaterialRegistry {
    pub closed spec fn wf(&self) -> bool {
        self@.no_duplicates()
    }

    pub fn new() -> (r: Self)
        ensures
            r.wf(),
            r@ == Seq::<Seq<char>>::empty(),
    {
        let r = MaterialRegistry { names: Vec::new() };
        assert(r@ =~= Seq::<Seq<char>>::empty());
        r
    }

    /// The number of registered materials.
    pub fn len(&self) -> (r: usize)
        ensures
            r == self@.len(),
    {
        self.names.len()
    }

    /// The slot of `name`, if it is registered.
    pub fn lookup(&self, name: &str) -> (r: Option<usize>)
        requires
            self.wf(),
        ensures
            r is Some <==> self@.contains(name@),
            r matches Some(i) ==> i == name_slot(self@, name@) && self@[i as int] == name@,
    {
        let mut i: usize = 0;
        while i < self.names.len()
            invariant
                i <= self.names@.len(),
                self.wf(),
                self@.len() == self.names@.len(),
                forall|j: int| 0 <= j < i ==> self@[j] != name@,
            decreases self.names@.len() - i,
        {
            assert(self@[i as int] == self.names@[i as int]@);
            if same_text(self.names[i].as_str(), name) {
                let ghost k = name_slot(self@, name@);
                assert(self@[i as int] == name@);
                assert(self@[k] == name@ && 0 <= k < self@.len());
                assert(self@.no_duplicates());
                return Some(i);
            }
            i = i + 1;
        }
        None
    }

    /// Registers `name` unless it is registered already, and gives its slot.
    pub fn register(&mut self, name: &str) -> (r: usize)
        requires
            old(self).wf(),
        ensures
            final(self).wf(),
            old(self)@.contains(name@) ==> final(self)@ == old(self)@ && r == name_slot(
                old(self)@, name@),
            !old(self)@.contains(name@) ==> final(self)@ == old(self)@.push(name@) && r
                == old(self)@.len(),
    {
        match self.lookup(name) {
            Some(i) => i,
            None => {
                let ghost before = self@;
                let i = self.names.len();
                self.names.push(name.to_owned());
                assert(self@ =~= before.push(name@));
                i
            },
        }
    }

    /// The slot of the material that a mesh names: its registered slot, or slot 0 when
    /// the mesh names none or one that is not registered.
    pub fn resolve(&self, name: &Option<String>) -> (r: usize)
        requires
            self.wf(),
        ensures
            match name {
                Some(n) => if self@.contains(n@) {
                    r == name_slot(self@, n@)
                } else {
                    r == 0
                },
                None => r == 0,
            },
    {
        match name {
            Some(n) => match self.lookup(n.as_str()) {
                Some(i) => i,
                None => 0,
            },
            None => 0,
        }
    }
}

/// Tells whether two strings hold the same characters.
fn same_text(a: &str, b: &str) -> (r: bool)
    ensures
        r == (a@ == b@),
{
    let x = crate::text::chars_of(a);
    let y = crate::text::chars_of(b);
    crate::text::same_chars(x.as_slice(), y.as_slice())
}

} // verus!
