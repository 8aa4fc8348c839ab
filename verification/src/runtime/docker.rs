use crate::book::paths::{get_parent_dir, parent_dir};
use crate::text::{copy_str, opt_text, texts};
use vstd::prelude::*;
use vstd::string::StringExecFns;

verus! {

/// Where the image of a container comes from.
#[derive(Debug)]
pub enum ContainerSource {
    /// An image that the runtime pulls by its reference.
    Image(String),
    /// An image that the runtime builds, under `name`, from the dockerfile at `path`.
    Build { name: String, path: String },
}

impl ContainerSource {
    /// The reference by which the runtime knows the image.
    pub open spec fn image_name(&self) -> Seq<char> {
        match *self {
            ContainerSource::Image(image) => image@,
            ContainerSource::Build { name, path } => name@,
        }
    }

    /// The reference by which the runtime knows the image.
    pub fn image(&self) -> (r: &str)
        ensures
            r@ == self.image_name(),
    {
        match self {
            ContainerSource::Image(image) => image.as_str(),
            ContainerSource::Build { name, .. } => name.as_str(),
        }
    }
}

/// The name of the container runtime: `configured`, which is what the environment
/// variable `ROBOPAGES_CONTAINER_RUNTIME` holds, or `docker` where it is not set.
pub fn get_container_runtime(configured: Option<String>) -> (r: String)
    ensures
        r@ == match configured {
            Some(name) => name@,
            None => "docker"@,
        },
{
    match configured {
        Some(name) => name,
        None => String::from_str("docker"),
    }
}

/// The shell command that makes sure that the image `image` is there: it asks the
/// runtime for the image and pulls it where the runtime has none, for `platform` where
/// one is given.
pub open spec fn pull_line(runtime: Seq<char>, image: Seq<char>, platform: Option<Seq<char>>) -> Seq<
    char,
> {
    runtime + " images -q '"@ + image + "' | grep -q . || "@ + runtime + " pull "@ + (match platform {
        Some(p) => "--platform '"@ + p + "' "@,
        None => Seq::empty(),
    }) + "'"@ + image + "'"@
}

/// The shell command that builds the image `name` from the dockerfile at `path`, with
/// the directory of the dockerfile as its context.
pub open spec fn build_line(runtime: Seq<char>, name: Seq<char>, path: Seq<char>) -> Seq<char> {
    runtime + " build -f '"@ + path + "' -t '"@ + name + "' --quiet '"@ + parent_dir(path) + "'"@
}

/// The shell command that makes sure that the image `image` is there.
pub fn pull_image(runtime: &str, image: &str, platform: Option<&str>) -> (line: String)
    ensures
        line@ == pull_line(
            runtime@,
            image@,
            match platform {
                Some(p) => Some(p@),
                None => None,
            },
        ),
{
    let mut line = String::from_str(runtime);
    line.append(" images -q '");
    line.append(image);
    line.append("' | grep -q . || ");
    line.append(runtime);
    line.append(" pull ");
    let ghost head = line@;
    match platform {
        Some(p) => {
            line.append("--platform '");
            line.append(p);
            line.append("' ");
            assert(line@ =~= head + ("--platform '"@ + p@ + "' "@));
        },
        None => {
            assert(line@ =~= head + Seq::<char>::empty());
        },
    }
    line.append("'");
    line.append(image);
    line.append("'");
    line
}

/// The shell command that builds the image `name` from the dockerfile at `path`.
pub fn build_image(runtime: &str, name: &str, path: &str) -> (line: String)
    ensures
        line@ == build_line(runtime@, name@, path@),
{
    let mut line = String::from_str(runtime);
    line.append(" build -f '");
    line.append(path);
    line.append("' -t '");
    line.append(name);
    line.append("' --quiet '");
    line.append(get_parent_dir(path).as_str());
    line.append("'");
    line
}

impl ContainerSource {
    /// The shell command that makes the image ready: it pulls an image that is not
    /// there, and builds one that is built.
    pub open spec fn resolve_line(&self, runtime: Seq<char>, platform: Option<Seq<char>>) -> Seq<
        char,
    > {
        match *self {
            ContainerSource::Image(image) => pull_line(runtime, image@, platform),
            ContainerSource::Build { name, path } => build_line(runtime, name@, path@),
        }
    }

    /// The command that makes the image ready, for `sh`: `sh`, `-c` and the line of
    /// `resolve_line`. `runtime` is the name of the container runtime.
    pub fn resolve(&self, runtime: &str, platform: Option<String>) -> (argv: Vec<String>)
        ensures
            texts(argv@) == seq!["sh"@, "-c"@, self.resolve_line(runtime@, opt_text(platform))],
    {
        let line = match self {
            ContainerSource::Image(image) => pull_image(
                runtime,
                image.as_str(),
                match &platform {
                    Some(p) => Some(p.as_str()),
                    None => None,
                },
            ),
            ContainerSource::Build { name, path } => build_image(
                runtime,
                name.as_str(),
                path.as_str(),
            ),
        };
        let mut argv: Vec<String> = Vec::new();
        argv.push(String::from_str("sh"));
        argv.push(String::from_str("-c"));
        argv.push(line);
        assert(texts(argv@) =~= seq!["sh"@, "-c"@, line@]);
        argv
    }
}

} // verus!
