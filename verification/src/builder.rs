//! Building the native library: the builder decides the exact commands, their
//! arguments, their working directory, and which environment path variables to
//! extend; running them is the caller's concern.
use vstd::prelude::*;
use crate::data::clone_strings;
use crate::data::strs_view;
use crate::text::dec_of_int;
use crate::text::i64_to_dec_string;

verus! {

/// One command to run: the program, its arguments in order, the directory to
/// run it in, and the path-list variables to extend with the listed
/// directories before running.
#[derive(Debug, PartialEq, Eq)]
pub struct CommandPlan {
    pub program: String,
    pub arguments: Vec<String>,
    pub current_dir: String,
    pub env_path_vars: Vec<String>,
    pub env_path_additions: Vec<String>,
}

/// Mathematical model of a [`CommandPlan`].
#[verifier::ext_equal]
pub ghost struct CommandPlanV {
    pub program: Seq<char>,
    pub arguments: Seq<Seq<char>>,
    pub current_dir: Seq<char>,
    pub env_path_vars: Seq<Seq<char>>,
    pub env_path_additions: Seq<Seq<char>>,
}

impl View for CommandPlan {
    type V = CommandPlanV;

    open spec fn view(&self) -> CommandPlanV {
        CommandPlanV {
            program: self.program@,
            arguments: strs_view(&self.arguments),
            current_dir: self.current_dir@,
            env_path_vars: strs_view(&self.env_path_vars),
            env_path_additions: strs_view(&self.env_path_additions),
        }
    }
}

/// Builds one native library out of its source tree: configures the build in
/// `build_dir`, then builds and installs into `install_dir`, extending the
/// linker path variables when extra library directories are given.
#[derive(Debug, PartialEq, Eq)]
pub struct CppLibBuilder {
    pub cmake_source_dir: String,
    pub build_dir: String,
    pub install_dir: String,
    pub num_jobs: i64,
    pub linker_env_library_dirs: Option<Vec<String>>,
}

/// Mathematical model of a [`CppLibBuilder`].
#[verifier::ext_equal]
pub ghost struct CppLibBuilderV {
    pub cmake_source_dir: Seq<char>,
    pub build_dir: Seq<char>,
    pub install_dir: Seq<char>,
    pub num_jobs: int,
    pub linker_env_library_dirs: Option<Seq<Seq<char>>>,
}

impl View for CppLibBuilder {
    type V = CppLibBuilderV;

    open spec fn view(&self) -> CppLibBuilderV {
        CppLibBuilderV {
            cmake_source_dir: self.cmake_source_dir@,
            build_dir: self.build_dir@,
            install_dir: self.install_dir@,
            num_jobs: self.num_jobs as int,
            linker_env_library_dirs: match &self.linker_env_library_dirs {
                Some(dirs) => Some(strs_view(dirs)),
                None => None,
            },
        }
    }
}

/// The configure command: the source directory, the install prefix, and, on
/// an msvc toolchain, the single-job generator with a release build, since
/// the produced crate always links the release runtime there.
pub open spec fn cmake_plan_spec(b: CppLibBuilderV, msvc: bool) -> CommandPlanV {
    let base = seq![b.cmake_source_dir, "-DCMAKE_INSTALL_PREFIX="@ + b.install_dir];
    CommandPlanV {
        program: "cmake"@,
        arguments: if msvc {
            base + seq!["-G"@, "NMake Makefiles"@, "-DCMAKE_BUILD_TYPE=Release"@]
        } else {
            base
        },
        current_dir: b.build_dir,
        env_path_vars: Seq::empty(),
        env_path_additions: Seq::empty(),
    }
}

/// The build-and-install command: parallel jobs where the tool supports them,
/// and the linker path variables extended with the extra library directories.
pub open spec fn make_plan_spec(b: CppLibBuilderV, msvc: bool) -> CommandPlanV {
    let args = if msvc {
        seq!["install"@]
    } else {
        seq!["-j"@ + dec_of_int(b.num_jobs), "install"@]
    };
    let dirs = match b.linker_env_library_dirs {
        Some(dirs) => dirs,
        None => Seq::empty(),
    };
    CommandPlanV {
        program: if msvc {
            "nmake"@
        } else {
            "make"@
        },
        arguments: args,
        current_dir: b.build_dir,
        env_path_vars: if dirs.len() > 0 {
            seq!["LIBRARY_PATH"@, "LD_LIBRARY_PATH"@, "LIB"@]
        } else {
            Seq::empty()
        },
        env_path_additions: dirs,
    }
}

impl CppLibBuilder {
    /// The two commands that build and install the library, in order: first
    /// configure, then build and install.
    pub fn plan(&self, msvc: bool) -> (r: Vec<CommandPlan>)
        ensures
            r@.len() == 2,
            r@[0]@ == cmake_plan_spec(self@, msvc),
            r@[1]@ == make_plan_spec(self@, msvc),
    {
        let mut cmake_args: Vec<String> = Vec::new();
        cmake_args.push(self.cmake_source_dir.clone());
        let mut prefix = String::from_str("-DCMAKE_INSTALL_PREFIX=");
        prefix.append(self.install_dir.as_str());
        cmake_args.push(prefix);
        if msvc {
            cmake_args.push(String::from_str("-G"));
            cmake_args.push(String::from_str("NMake Makefiles"));
            cmake_args.push(String::from_str("-DCMAKE_BUILD_TYPE=Release"));
        }
        let cmake = CommandPlan {
            program: String::from_str("cmake"),
            arguments: cmake_args,
            current_dir: self.build_dir.clone(),
            env_path_vars: Vec::new(),
            env_path_additions: Vec::new(),
        };
        proof {
            assert(cmake@ =~~= cmake_plan_spec(self@, msvc));
        }
        let mut make_args: Vec<String> = Vec::new();
        if !msvc {
            let mut jobs = String::from_str("-j");
            let jobs_text = i64_to_dec_string(self.num_jobs);
            jobs.append(jobs_text.as_str());
            make_args.push(jobs);
        }
        make_args.push(String::from_str("install"));
        let mut env_path_vars: Vec<String> = Vec::new();
        let mut env_path_additions: Vec<String> = Vec::new();
        match &self.linker_env_library_dirs {
            Some(dirs) => {
                if dirs.len() > 0 {
                    env_path_vars.push(String::from_str("LIBRARY_PATH"));
                    env_path_vars.push(String::from_str("LD_LIBRARY_PATH"));
                    env_path_vars.push(String::from_str("LIB"));
                }
                let mut copied = clone_strings(dirs);
                env_path_additions.append(&mut copied);
                proof {
                    assert(strs_view(&env_path_additions) =~= strs_view(dirs));
                }
            },
            None => {},
        }
        let make = CommandPlan {
            program: if msvc {
                String::from_str("nmake")
            } else {
                String::from_str("make")
            },
            arguments: make_args,
            current_dir: self.build_dir.clone(),
            env_path_vars,
            env_path_additions,
        };
        proof {
            assert(make@ =~~= make_plan_spec(self@, msvc));
        }
        let mut r: Vec<CommandPlan> = Vec::new();
        r.push(cmake);
        r.push(make);
        r
    }
}

} // verus!
