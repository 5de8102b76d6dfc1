use vstd::prelude::*;

verus! {

/// An account or contract on the ledger, named by its strkey (`G...` or `C...`).
#[derive(Debug)]
pub struct Address {
    pub strkey: String,
}

impl View for Address {
    type V = Seq<char>;

    open spec fn view(&self) -> Seq<char> {
        self.strkey@
    }
}

impl Clone for Address {
    fn clone(&self) -> (res: Self)
        ensures
            res == *self,
    {
        Address { strkey: self.strkey.clone() }
    }
}

impl Address {
    /// The address whose strkey is `strkey`.
    pub fn new(strkey: &str) -> (res: Address)
        ensures
            res@ == strkey@,
    {
        Address { strkey: strkey.to_owned() }
    }

    /// Whether the two addresses name the same account.
    pub fn same_as(&self, other: &Address) -> (res: bool)
        ensures
            res == (self@ == other@),
    {
        self.strkey == other.strkey
    }
}

} // verus!
