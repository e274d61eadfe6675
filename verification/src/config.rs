//! The launch configuration: the path of the binary image to load, taken
//! from the command-line arguments.

use vstd::prelude::*;

verus! {

/// The launch configuration; its view is the configured image path.
#[derive(Debug)]
pub struct Config {
    file_path: String,
}

impl View for Config {
    type V = Seq<char>;

    closed spec fn view(&self) -> Seq<char> {
        self.file_path@
    }
}

impl Config {
    /// Builds the configuration from the command-line arguments: the first
    /// argument after the program name becomes the image path; with fewer
    /// than two arguments the usage line comes back as the error.
    pub fn build(args: &[String]) -> (r: Result<Config, &'static str>)
        ensures
            (r is Ok <==> args@.len() >= 2),
            (r matches Ok(c) ==> c@ == args@[1]@),
            (r matches Err(m) ==> m@ == "Usage: rpx86 [bin]"@),
    {
        if args.len() < 2 {
            return Err("Usage: rpx86 [bin]");
        }
        let file_path = args[1].clone();
        Ok(Self { file_path })
    }

    /// The configured image path.
    pub fn get_fp(&self) -> (r: &str)
        ensures
            r@ == self@,
    {
        self.file_path.as_str()
    }
}

} // verus!
