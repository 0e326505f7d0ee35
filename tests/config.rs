use cmake_link::config::Config;

#[test]
fn configure_args_carry_defines_in_order() {
    let mut c = Config::new("openusd", "../bbl-usd");
    c.define("BBL_LANGUAGES", "rust").define("X", "1");
    let args = c.configure_args("/out/build", "/out");
    assert_eq!(
        args,
        vec![
            "-G",
            "Ninja",
            "-DCMAKE_BUILD_TYPE=Release",
            "-S ../bbl-usd",
            "-B /out/build",
            "-DCMAKE_INSTALL_PREFIX=/out",
            "-DBBL_LANGUAGES=rust",
            "-DX=1",
        ]
    );
}

#[test]
fn build_type_is_used_when_set() {
    let mut c = Config::new("p", "src");
    c.build_type("Debug");
    assert_eq!(c.effective_build_type(), "Debug");
    assert_eq!(c.configure_args("b", "i")[2], "-DCMAKE_BUILD_TYPE=Debug");
}

#[test]
fn build_args_install_the_tree() {
    let c = Config::new("p", "src");
    assert_eq!(c.build_args("/o/build"), vec!["--build", "/o/build", "--target", "install"]);
}
