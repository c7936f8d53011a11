//! Kernel symbols: resolving an address to the function that holds it.

use vstd::prelude::*;

verus! {

/// A symbol of the kernel image: its name and the address range
/// `[start, start + size)` it occupies.
pub struct Symbol {
    pub name: &'static str,
    pub start: usize,
    pub size: usize,
}

/// Whether `addr` lies in `[start, start + size)`.
pub open spec fn in_symbol(start: usize, size: usize, addr: usize) -> bool {
    start <= addr < start + size
}

impl Symbol {
    /// A symbol named `name` covering `[start, start + size)`.
    pub fn new(name: &'static str, start: usize, size: usize) -> (r: Self)
        ensures
            r.name == name,
            r.start == start,
            r.size == size,
    {
        Symbol { name, start, size }
    }

    /// Whether the symbol's range holds `addr`.
    pub fn contains(&self, addr: usize) -> (r: bool)
        ensures
            r == in_symbol(self.start, self.size, addr),
    {
        addr >= self.start && addr - self.start < self.size
    }

    /// The symbol's name.
    pub fn name(&self) -> (r: &'static str)
        ensures
            r == self.name,
    {
        self.name
    }
}

/// The position of the first symbol whose range holds `addr`, if any.
pub fn lookup_symbol(symbols: &[Symbol], addr: usize) -> (r: Option<usize>)
    ensures
        match r {
            Some(i) => i < symbols@.len() && in_symbol(symbols@[i as int].start, symbols@[i as int].size, addr)
                && forall|j: int| 0 <= j < i ==> !in_symbol(#[trigger] symbols@[j].start, symbols@[j].size, addr),
            None => forall|j: int|
                0 <= j < symbols@.len() ==> !in_symbol(#[trigger] symbols@[j].start, symbols@[j].size, addr),
        },
{
    let mut i: usize = 0;
    while i < symbols.len()
        invariant
            i <= symbols@.len(),
            forall|j: int| 0 <= j < i ==> !in_symbol(#[trigger] symbols@[j].start, symbols@[j].size, addr),
        decreases symbols@.len() - i,
    {
        if symbols[i].contains(addr) {
            return Some(i);
        }
        i += 1;
    }
    None
}

} // verus!
