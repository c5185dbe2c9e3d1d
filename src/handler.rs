//! What a combination does when it is typed.
use vstd::prelude::*;

verus! {

/// Something a combination can be bound to. Running it is the caller's
/// business; the handler only names itself.
pub trait ComboHandler {
    /// A name for the handler, for the log.
    fn handler_name(&self) -> &str;
}

/// Launches `program` with `arguments`, detached from the window manager's
/// standard streams.
#[derive(Debug)]
pub struct Spawn {
    name: String,
    program: String,
    arguments: Vec<String>,
}

/// The parts of a `Spawn`, as values.
pub ghost struct SpawnView {
    pub name: Seq<char>,
    pub program: Seq<char>,
    pub arguments: Seq<Seq<char>>,
}

/// The characters of each string of `s`.
pub open spec fn texts(s: Seq<String>) -> Seq<Seq<char>> {
    s.map_values(|t: String| t@)
}

impl View for Spawn {
    type V = SpawnView;

    closed spec fn view(&self) -> SpawnView {
        SpawnView { name: self.name@, program: self.program@, arguments: texts(self.arguments@) }
    }
}

impl Spawn {
    /// A handler named `name` that launches `program` with `arguments`.
    pub fn new(name: String, program: String, arguments: Vec<String>) -> (r: Spawn)
        ensures
            r@ == (SpawnView { name: name@, program: program@, arguments: texts(arguments@) }),
    {
        Spawn { name, program, arguments }
    }

    /// The program to launch.
    pub fn program(&self) -> (r: &str)
        ensures
            r@ == self@.program,
    {
        self.program.as_str()
    }

    /// The arguments to launch the program with.
    pub fn arguments(&self) -> (r: &[String])
        ensures
            texts(r@) == self@.arguments,
    {
        self.arguments.as_slice()
    }
}

impl Clone for Spawn {
    fn clone(&self) -> (r: Spawn)
        ensures
            r@ == self@,
    {
        let mut arguments: Vec<String> = Vec::with_capacity(self.arguments.len());
        let mut i: usize = 0;
        while i < self.arguments.len()
            invariant
                i <= self.arguments@.len(),
                arguments@ == self.arguments@.take(i as int),
            decreases self.arguments@.len() - i,
        {
            arguments.push(self.arguments[i].clone());
            assert(self.arguments@.take(i + 1) =~= self.arguments@.take(i as int).push(
                self.arguments@[i as int],
            ));
            i = i + 1;
        }
        assert(self.arguments@.take(i as int) =~= self.arguments@);
        Spawn { name: self.name.clone(), program: self.program.clone(), arguments }
    }
}

impl ComboHandler for Spawn {
    fn handler_name(&self) -> (r: &str)
        ensures
            r@ == self@.name,
    {
        self.name.as_str()
    }
}

} // verus!
