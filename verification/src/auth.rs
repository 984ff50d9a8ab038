//! Who may connect to the pool.
use vstd::prelude::*;

verus! {

/// The settings of the pool.
pub struct Config {
    password: String,
}

/// A refused request: the HTTP status code and the reason.
#[derive(Debug, PartialEq, Eq)]
pub struct Refusal {
    pub code: u16,
    pub reason: String,
}

impl View for Config {
    type V = Seq<char>;

    closed spec fn view(&self) -> Seq<char> {
        self.password@
    }
}

impl Config {
    /// A pool with the given password.
    pub fn new(password: String) -> (r: Config)
        ensures
            r@ == password@,
    {
        Config { password }
    }

    /// Lets a client in that knows the password, and refuses any other with the code 401.
    pub fn authorize(&self, password: &str) -> (r: Result<(), Refusal>)
        ensures
            match r {
                Ok(_) => password@ == self@,
                Err(refusal) => {
                    &&& password@ != self@
                    &&& refusal.code == 401
                    &&& refusal.reason@ == "Invalid credentials"@
                },
            },
    {
        if self.password == password.to_owned() {
            Ok(())
        } else {
            Err(Refusal { code: 401, reason: "Invalid credentials".to_owned() })
        }
    }
}

} // verus!
