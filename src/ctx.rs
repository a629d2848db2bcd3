use vstd::prelude::*;

verus! {

/// The identity resolved for an authenticated request.
#[derive(Clone, Copy, Debug, PartialEq, Eq, Structural)]
pub struct Ctx {
    user_id: i32,
}

impl Ctx {
    /// The identity carried by this context.
    pub closed spec fn id(&self) -> i32 {
        self.user_id
    }

    pub fn new(user_id: i32) -> (r: Ctx)
        ensures
            r.id() == user_id,
    {
        Ctx { user_id }
    }

    pub fn user_id(&self) -> (r: i32)
        ensures
            r == self.id(),
    {
        self.user_id
    }
}

} // verus!
