use crate::failure::{Failure, FailureView};
use crate::strmap::StrMap;
use crate::text::{chars_of, copy_str, has_at, starts_with_at, string_of_range};
use vstd::prelude::*;
use vstd::string::StringExecFns;

verus! {

/// One file that a template brings: the page itself, which has no name, or an asset
/// that the page refers to.
#[derive(Debug)]
pub struct TemplateData {
    pub name: Option<String>,
    pub data: String,
}

/// The pages that a new file can be made from.
#[derive(Clone, Copy, Debug)]
pub enum Template {
    Basic,
    DockerImage,
    DockerBuild,
}

/// The first position from `i` on that holds a line feed; the length if there is none.
pub open spec fn line_end(s: Seq<char>, i: int) -> int
    decreases s.len() - i,
{
    if 0 <= i < s.len() && s[i] != '\n' {
        line_end(s, i + 1)
    } else {
        i
    }
}

/// The asset that `s` refers to from position `i` on: what stands behind the first
/// `${cwd}/` up to the end of its line, where that is not empty.
pub open spec fn asset_reference(s: Seq<char>, i: int) -> Option<Seq<char>>
    decreases s.len() - i,
{
    if !(0 <= i < s.len()) {
        None
    } else if has_at(s, i, "${cwd}/"@) && line_end(s, i + 7) > i + 7 {
        Some(s.subrange(i + 7, line_end(s, i + 7)))
    } else {
        asset_reference(s, i + 1)
    }
}

/// The asset that `data` refers to, if it refers to one.
pub fn find_asset_reference(data: &str) -> (r: Option<String>)
    ensures
        match r {
            Some(name) => asset_reference(data@, 0) == Some(name@),
            None => asset_reference(data@, 0) is None,
        },
{
    let s = chars_of(data);
    let marker = chars_of("${cwd}/");
    proof {
        reveal_strlit("${cwd}/");
    }
    let mut i: usize = 0;
    while i < s.len()
        invariant
            i <= s.len(),
            s@ == data@,
            marker@ == "${cwd}/"@,
            marker@.len() == 7,
            asset_reference(s@, 0) == asset_reference(s@, i as int),
        decreases s.len() - i,
    {
        if starts_with_at(&s, i, &marker) {
            let from = i + 7;
            let mut to = from;
            while to < s.len() && s[to] != '\n'
                invariant
                    from <= to <= s.len(),
                    line_end(s@, from as int) == line_end(s@, to as int),
                decreases s.len() - to,
            {
                to += 1;
            }
            if to > from {
                return Some(string_of_range(&s, from, to));
            }
        }
        i += 1;
    }
    None
}

impl Template {
    /// The name of the template.
    pub open spec fn name(&self) -> Seq<char> {
        match *self {
            Template::Basic => "basic"@,
            Template::DockerImage => "docker_image"@,
            Template::DockerBuild => "docker_build"@,
        }
    }

    /// The name of the template.
    pub fn to_string(&self) -> (s: String)
        ensures
            s@ == self.name(),
    {
        match self {
            Template::Basic => String::from_str("basic"),
            Template::DockerImage => String::from_str("docker_image"),
            Template::DockerBuild => String::from_str("docker_build"),
        }
    }

    /// The files of the template, out of `files`, which holds the template files by
    /// name: the page `<name>.yml`, and behind it the asset that the page refers to, if
    /// it refers to one. It fails where `files` lacks one of them.
    pub fn get_data(&self, files: &StrMap<String>) -> (r: Result<Vec<TemplateData>, Failure>)
        ensures
            match files.lookup(self.name() + ".yml"@) {
                None => r matches Err(e) && e@ == (FailureView::TemplateNotFound {
                    name: self.name() + ".yml"@,
                }),
                Some(page) => match asset_reference(page@, 0) {
                    None => r matches Ok(parts) && parts@.len() == 1 && parts@[0].name is None
                        && parts@[0].data@ == page@,
                    Some(asset_name) => match files.lookup(asset_name) {
                        None => r matches Err(e) && e@ == (FailureView::TemplateNotFound {
                            name: asset_name,
                        }),
                        Some(asset) => {
                            &&& r matches Ok(parts)
                            &&& parts@.len() == 2
                            &&& parts@[0].name is None
                            &&& parts@[0].data@ == page@
                            &&& parts@[1].name matches Some(name)
                            &&& name@ == asset_name
                            &&& parts@[1].data@ == asset@
                        },
                    },
                },
            },
    {
        let mut template_name = self.to_string();
        template_name.append(".yml");
        let page = match files.get(template_name.as_str()) {
            Some(page) => page,
            None => {
                return Err(Failure::TemplateNotFound { name: template_name });
            },
        };
        let mut parts: Vec<TemplateData> = Vec::new();
        parts.push(TemplateData { name: None, data: page.clone() });
        match find_asset_reference(page.as_str()) {
            None => {},
            Some(asset_name) => {
                let asset = match files.get(asset_name.as_str()) {
                    Some(asset) => asset,
                    None => {
                        return Err(Failure::TemplateNotFound { name: asset_name });
                    },
                };
                parts.push(TemplateData { name: Some(asset_name), data: asset.clone() });
            },
        }
        Ok(parts)
    }
}

} // verus!
