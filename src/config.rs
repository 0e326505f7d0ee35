use vstd::prelude::*;

verus! {

/// How to configure and build one outside CMake project.
#[derive(Debug)]
pub struct Config {
    pub project_name: String,
    pub project_path: String,
    pub defines: Vec<(String, String)>,
    pub build_type: Option<String>,
}

pub open spec fn defines_view(d: Seq<(String, String)>) -> Seq<(Seq<char>, Seq<char>)> {
    d.map_values(|kv: (String, String)| (kv.0@, kv.1@))
}

/// The build type that a configuration asks for: its own, or `Release`.
pub open spec fn build_type_spec(b: Option<String>) -> Seq<char> {
    match b {
        Some(t) => t@,
        None => "Release"@,
    }
}

/// The arguments of the configure call.
pub open spec fn configure_args_spec(
    c: Config,
    build_dir: Seq<char>,
    install_prefix: Seq<char>,
) -> Seq<Seq<char>> {
    seq![
        "-G"@,
        "Ninja"@,
        "-DCMAKE_BUILD_TYPE="@ + build_type_spec(c.build_type),
        "-S "@ + c.project_path@,
        "-B "@ + build_dir,
        "-DCMAKE_INSTALL_PREFIX="@ + install_prefix,
    ] + defines_view(c.defines@).map_values(
        |kv: (Seq<char>, Seq<char>)| "-D"@ + kv.0 + "="@ + kv.1,
    )
}

fn joined(a: &str, b: &str) -> (r: String)
    ensures
        r@ == a@ + b@,
{
    let mut s = String::from_str(a);
    s.append(b);
    s
}

impl Config {
    /// A configuration for the project `project_name` whose sources are at
    /// `path`, with no defines and the default build type.
    pub fn new(project_name: &str, path: &str) -> (r: Config)
        ensures
            r.project_name@ == project_name@,
            r.project_path@ == path@,
            r.defines@.len() == 0,
            r.build_type is None,
    {
        Config {
            project_name: project_name.to_owned(),
            project_path: path.to_owned(),
            defines: Vec::new(),
            build_type: None,
        }
    }

    /// Adds the define `key=value` to the configure call.
    pub fn define(&mut self, key: &str, value: &str) -> (r: &mut Config)
        ensures
            r.project_name == old(self).project_name,
            r.project_path == old(self).project_path,
            r.build_type == old(self).build_type,
            defines_view(r.defines@) == defines_view(old(self).defines@).push((key@, value@)),
            *final(self) == *final(r),
    {
        let ghost before = self.defines@;
        self.defines.push((key.to_owned(), value.to_owned()));
        assert(defines_view(self.defines@) =~= defines_view(before).push((key@, value@)));
        self
    }

    /// Sets the build type of the configure call.
    pub fn build_type(&mut self, build_type: &str) -> (r: &mut Config)
        ensures
            r.project_name == old(self).project_name,
            r.project_path == old(self).project_path,
            r.defines == old(self).defines,
            r.build_type matches Some(t) && t@ == build_type@,
            *final(self) == *final(r),
    {
        self.build_type = Some(build_type.to_owned());
        self
    }

    /// The build type to configure with: the one set, or `Release`.
    pub fn effective_build_type(&self) -> (r: String)
        ensures
            r@ == build_type_spec(self.build_type),
    {
        match &self.build_type {
            Some(t) => t.clone(),
            None => String::from_str("Release"),
        }
    }

    /// The arguments of the configure call, with the build tree at
    /// `build_dir` and the install prefix `install_prefix`.
    pub fn configure_args(&self, build_dir: &str, install_prefix: &str) -> (r: Vec<String>)
        ensures
            r@.map_values(|a: String| a@) == configure_args_spec(*self, build_dir@, install_prefix@),
    {
        let mut args: Vec<String> = Vec::new();
        args.push(String::from_str("-G"));
        args.push(String::from_str("Ninja"));
        let bt = self.effective_build_type();
        args.push(joined("-DCMAKE_BUILD_TYPE=", bt.as_str()));
        args.push(joined("-S ", self.project_path.as_str()));
        args.push(joined("-B ", build_dir));
        args.push(joined("-DCMAKE_INSTALL_PREFIX=", install_prefix));
        let ghost head = args@.map_values(|a: String| a@);
        let ghost spec = configure_args_spec(*self, build_dir@, install_prefix@);
        let ghost dv = defines_view(self.defines@).map_values(
            |kv: (Seq<char>, Seq<char>)| "-D"@ + kv.0 + "="@ + kv.1,
        );
        assert(head =~= spec.subrange(0, 6));
        let mut i: usize = 0;
        while i < self.defines.len()
            invariant
                i <= self.defines@.len(),
                dv == defines_view(self.defines@).map_values(
                    |kv: (Seq<char>, Seq<char>)| "-D"@ + kv.0 + "="@ + kv.1,
                ),
                dv.len() == self.defines@.len(),
                spec == head + dv,
                head.len() == 6,
                args@.map_values(|a: String| a@) == head + dv.subrange(0, i as int),
            decreases self.defines@.len() - i,
        {
            let kv = &self.defines[i];
            let mut a = joined("-D", kv.0.as_str());
            a.append("=");
            a.append(kv.1.as_str());
            let ghost before = args@;
            let ghost av = a@;
            assert(self.defines@[i as int] == *kv);
            assert(defines_view(self.defines@)[i as int] == (kv.0@, kv.1@));
            assert(dv[i as int] == av);
            args.push(a);
            assert(args@.map_values(|a: String| a@) =~= before.map_values(|a: String| a@).push(
                av,
            ));
            assert(head + dv.subrange(0, i + 1) =~= (head + dv.subrange(0, i as int)).push(
                dv[i as int],
            ));
            i = i + 1;
        }
        assert(dv.subrange(0, i as int) =~= dv);
        args
    }

    /// The arguments of the build call that installs the build tree at
    /// `build_dir`.
    pub fn build_args(&self, build_dir: &str) -> (r: Vec<String>)
        ensures
            r@.map_values(|a: String| a@) == seq!["--build"@, build_dir@, "--target"@, "install"@],
    {
        let mut args: Vec<String> = Vec::new();
        args.push(String::from_str("--build"));
        args.push(build_dir.to_owned());
        args.push(String::from_str("--target"));
        args.push(String::from_str("install"));
        assert(args@.map_values(|a: String| a@) =~= seq![
            "--build"@,
            build_dir@,
            "--target"@,
            "install"@,
        ]);
        args
    }
}

} // verus!
