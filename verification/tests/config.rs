use rpx86::config::Config;

#[test]
fn build_test() {
    let args = vec!["0".to_string()];
    let config = Config::build(&args);
    assert_eq!(config.unwrap_err(), "Usage: rpx86 [bin]");

    let args = vec!["0".to_string(), "helloworld.bin".to_string()];
    let config = Config::build(&args);
    assert_eq!(config.unwrap().get_fp(), "helloworld.bin");
}

#[test]
fn get_fp_test() {
    let args = vec!["0".to_string(), "helloworld.bin".to_string()];
    let config = Config::build(&args);
    assert_eq!(config.unwrap().get_fp(), "helloworld.bin");
}
