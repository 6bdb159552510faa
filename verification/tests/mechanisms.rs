// Each mechanism, over each of its primitives, against known answers:
// instantiate, generate without and with additional input, reseed, generate
// again, an empty request, and a last request that shows the state moved on.
//
// The expected bytes were computed with an independent implementation of
// SP 800-90A that agrees with OpenSSL's generators.

use kondrbg::ctr::cipher::{Aes128, Aes192, Aes256};
use kondrbg::ctr::util::{bcc, block_cipher_df};
use kondrbg::ctr::Ctr;
use kondrbg::drbg::variant::DrbgVariant;
use kondrbg::hash_based::hash::util::hash_df;
use kondrbg::hash_based::hashfn::{Sha224, Sha256, Sha384, Sha512, Sha512_224, Sha512_256};
use kondrbg::hash_based::hmac::Hmac;

fn replay<M: DrbgVariant>(expected: [&str; 4]) {
    let entropy: Vec<u8> = (0u8..32).collect();
    let nonce: Vec<u8> = (100u8..116).collect();
    let mut drbg = M::instantiate(&entropy, &nonce, b"abc");

    let mut first = [0u8; 40];
    drbg.generate(&mut first, &[], 1);
    assert_eq!(hex::encode(first), expected[0]);

    let mut second = [0u8; 16];
    drbg.generate(&mut second, b"xyz", 2);
    assert_eq!(hex::encode(second), expected[1]);

    let fresh: Vec<u8> = (200u8..232).collect();
    drbg.reseed(&fresh, b"additional input");
    let mut third = [0u8; 100];
    drbg.generate(&mut third, b"additional input", 1);
    assert_eq!(hex::encode(third), expected[2]);

    let mut nothing = [0u8; 0];
    drbg.generate(&mut nothing, &[], 2);

    let mut last = [0u8; 33];
    drbg.generate(&mut last, &[], 3);
    assert_eq!(hex::encode(last), expected[3]);
}

#[test]
fn ctr_aes128_known_answers() {
    replay::<Ctr<Aes128>>([
        "77ad6b6649f1cf066b26730e9e17ad51f7248dfa5188ecf0711154d252ea54ef82a69055e5569959",
        "ebd5d84ecca3288965c14feafcddaf7b",
        "16e6185b0965027cc7ea946ec9ba65e0e364eb161db5e9249318b15d642047ef5e034fb3e029192cf9cf043aaf482cd4eeeceb727a5b395560250023d52f5a2452ef40149bb607d0e94c41451fd4bcd173a09922738d72bc59d01845f6346a0cfeb1aa48",
        "32fdcfcff39d88762344daa58e4c36679234c814bda9939feeb8fffdc91eb59e79",
    ]);
}

#[test]
fn ctr_aes192_known_answers() {
    replay::<Ctr<Aes192>>([
        "94db18148f7c682a2c930441472ef8ad5294cabb4e7bbfdbd5de48cbdb187074ccb1b4b9f93c36eb",
        "cf6258494e877e7e5720fef4552609fd",
        "9926ffa12f7ff95560b305e59a1befb7f6bdcac64e30137455ae7c61a3820b3dda143ecd18675a84b26aac94b0725416c42be2d726d0998fa0c107af9177e3976f47cb6b9b17dd68dccf3a5e80366ae45d13447dc1cf484e3774c1d2ecf31ebc79ddfabf",
        "12f6c62074b24b58e0eeed62d50680854f1fd21a5ab1d19277fc518bbf68f554f7",
    ]);
}

#[test]
fn ctr_aes256_known_answers() {
    replay::<Ctr<Aes256>>([
        "761079f20af76f493c23a285837d59bd528818ee7da521a53fadc2b344c7467a7a46092dfd8a0c26",
        "c740d33e698f0938d21b3a7c9d2abc08",
        "b2abc8932a356175a080df98c509a64b51074e2ca04b51fe91569892ac7bd8d2d6e69162b74bbc4060ca561bb2c4b14d7e2197f81973482d5ed9e7c6b1ef4e149d6dca64878a1ac8b1eb6e2dcc7399010bdb9acd61ba529868477a09d22abd9db6a432cf",
        "c4c3166d0c2f04e28cb1dfacc5c3869a173185d02031e029e54a3000a485edefa1",
    ]);
}

#[test]
fn hash_sha224_known_answers() {
    replay::<kondrbg::hash_based::hash::Hash<Sha224>>([
        "36dc0bbe5eab577554cd8c847098eab5a037ea51ba2d8810b5465f903f2acfd637d2ce8ab09cfdeb",
        "401cf06144e873bb6e574f1b63621fd0",
        "811bb84c199e6c6b2b3306ab7d9894440a60c68af41f57d0eb2a5496accffc1546fc4c08321d439b1bfe241bce3373cf857fa752cc2b17347f9eb5db6506704abf7e6ee313023ff7a12c2a488b22d8b48e3f537e3de14d4a5ecd662d1a7175dda7427b4e",
        "d0f0b8bb731c45732dbb6328c7b173b57b0727da4c020e2d6c0c14566ac6e87ff3",
    ]);
}

#[test]
fn hash_sha256_known_answers() {
    replay::<kondrbg::hash_based::hash::Hash<Sha256>>([
        "0367eb9a0b7e614619a24754e3d3d25714a293a3b7a4e7d78e6e769d16487197551d5a09a5bb7783",
        "648000285111d221b34da39158fd1b0c",
        "b72fff39370e91d792243268b2920877f3c7ee766493e5c873f4f5ca8848e1d6c64e6b0738f2f8cf6b3a161c6fe054e239f7fc8876a7139c3264ec9961ff06e24d9856b70fb6f403728536744ded6e69828c340a81647f9c224804f308b8250321e3d17b",
        "7ff3ed0e039cc8b1982ee5343f1f5d3559ebeb9e3f9b1c24d11f992026be7a44bd",
    ]);
}

#[test]
fn hash_sha384_known_answers() {
    replay::<kondrbg::hash_based::hash::Hash<Sha384>>([
        "27336d2172b738663a1406c83e32db1d545eb785af79bc85eacba5880c72c745b488264068655c05",
        "dfc1ea53a5fad7fe69fa6150f435f3d8",
        "bf4ffc43013269a92bbe94ce9b0ba7a238b88ed6f1de4f487de69a62e74a13f300702f5d4cd3e79f5e5f55ff7faafa8ce23a76e2d1a0b50d3d5fdff3d22c32a1b73a678098b5b3c676be289e014eb61f8c1d7f4625fbad01181eb22322eb83e197958300",
        "fd91f88cc2998ebadefe91a5b5899837dc74552a887d3af574a67bae7234424aed",
    ]);
}

#[test]
fn hash_sha512_known_answers() {
    replay::<kondrbg::hash_based::hash::Hash<Sha512>>([
        "9998edd3f939848159930c0198e8328ed8edd79ccf030b26a42147033f4b182b6f5e40522d7f039a",
        "b41e7ec2bba5fbdc5741db2d0c04279d",
        "3f63cab77cb884d43318e7b002a78a0a4cd33884877803b3887c8f503c2a59266acb462a2ae5c37ff13ae9152f0d2fe7b147dda69b11773a31983e1daae5f82bab6b8c1fa45ceba5c87e0acf283685b4f11a9adbace47f87c58358f4c6e6caf252e5a13e",
        "e6d4f8743bfbb68e7d4a81d4f769045fab5e7281eef47e19f89ee95e4cec85b8aa",
    ]);
}

#[test]
fn hash_sha512_224_known_answers() {
    replay::<kondrbg::hash_based::hash::Hash<Sha512_224>>([
        "63556c7d3a87cf59de4a72c839b0355700275765a313ff7c886a1099af2426c5fa885418c7b36b7d",
        "a788ee4f60a4a8d48b75c3a71e4983f4",
        "3998f63e4b39c6802404399b8e885a8445e6d3d6f46ed782436f0c3c7e9c497ade747b325fe6326eedaff31fe660e088181fe2ac9a080093d2bcf9db7b1fbd24d73b64d023938bcf48a3a2ba88ede17ab6237e12a0e6bdcef3159b311788ea51722c8067",
        "d53022e9d73bf34effecad339ad2db5e247968e91e1268741426cf44e3f1872628",
    ]);
}

#[test]
fn hash_sha512_256_known_answers() {
    replay::<kondrbg::hash_based::hash::Hash<Sha512_256>>([
        "48f29e326f67dc1fe831f87651c63a40db781ed3f41320682d24f2c8e5e724747286f54d4654d6a6",
        "35420a70dcdc9521e37faec563b09fd6",
        "4b926c38bd5d520608ad041ee84465cd4a97d149caa9013dba45b132320b43240bc6df991c542b538a2a5e02114912d56854e9ee9daee190ef82214ad3cad72d11370f3e60c72f7bbb8ee724f5a51d1bba4b5ae48870a17fa46f0b9dc1d7241da2a47cc3",
        "ddf935c49f45ca10009e3e9cf340900c1ee0e23c91ed579db9d1e289ac826647c3",
    ]);
}

#[test]
fn hmac_sha224_known_answers() {
    replay::<Hmac<Sha224>>([
        "bb9aaeae748b84e3e991607644659eb6de47a8c602cc16cd2da4494b0dff8bf372903b741b14f821",
        "c94e91cf4f45d0c554d52ebe4fa567c8",
        "b23c868034beac4dbaac96d49cc1daef55eaa8ecf7f2ab48fa7ad5103cbcb289bb8f2688744801f4a59ed593062a58a17eb2f7dfdca6893521a3ddf1afe7f88db25f3158a3c602694a3d015642afd00d7d0f5a0cdb11e63f2fad7edcedcb78698f67503b",
        "224fb2af3fbf83ad6bbec4ea970796cf72599d7b6ae6043371425bcba2f3f9a3f4",
    ]);
}

#[test]
fn hmac_sha256_known_answers() {
    replay::<Hmac<Sha256>>([
        "92990c2f8c54ab56c4c7a86d87fc95c5b81f3aba19cbeed4bff239e698c2eba45384f89198a03e70",
        "4ca34e13b26d695fc280305658f18d15",
        "83fd58f912900fdd90006b0d2112408e94d0bdd334cc6456773bd344234bf7291cd01a0295f28a43555d1d8bb4817d502201a658a215216247f63fd37384a28c74e21f961dca65982a3ca53d8465a022592c3763682fc2b4ba1d7efe7099a8aaccfd9f4e",
        "4a54c003c1b1a3307bb68f3f104e38be0a4f6146f24872e4a4dab25fe3600d5019",
    ]);
}

#[test]
fn hmac_sha384_known_answers() {
    replay::<Hmac<Sha384>>([
        "2043c5782fe1b5b63ca4a418b889a4d6b3c3070d8bbd6248b7aa15a841fb22021237f96aea90df56",
        "b584acfa51b1a8d0281818d3887a8b72",
        "4c390d9e8cacfa09af4b722d603120c3e20938c810149b04d1473271a21550fdfa943bd845d22fe764bdf8ab6f3b747b78f43d6c58ecc7286c95250875b391c7e833b1e88398aa686c907595b442b5d340e75e0624dc2fe375c30f643386a8727dedb266",
        "f63a4f55f43cb332ea2de1deb3f7b20dd868920a891b6eb26687785d633db6806e",
    ]);
}

#[test]
fn hmac_sha512_known_answers() {
    replay::<Hmac<Sha512>>([
        "d72b73892eb8b5983f2cb6d010e4cce7bcd35c906429a4562f54e9e9cae1329fdbf1ed333d9264a6",
        "0ed0097ae61f4c4d225f55a062e2955e",
        "74a01e891223b18d7759470b73c48af81d3a65a49e25ae1187fdceb7f2bc8b8e327c4a5aea4d5392ad8adb6706c82abfa10c908baf9f74c38c93a98d594ff5fe2b90283511ad5123238a26ac07972378aa64d03a6db5511a92cac6a7a7bb5e16a75f8fca",
        "bcf722d8f853cc545d8bb7c791658f71918ebbcfb6a97b931a549152076e60f1ff",
    ]);
}

#[test]
fn hmac_sha512_224_known_answers() {
    replay::<Hmac<Sha512_224>>([
        "4715f62585fb2e337a8f442554e32310b42bc0b97c57a3e58a794bb460688e032f1c0ceffcced899",
        "fc90f1c49616a8f614c1dc962afca792",
        "bf202b52a4020d43228e2896f7e036dbd4008a504432e4cb42472d63005f3e68bf98d058ee2b13ace42965cb77d7cb829f65a03bde1c813b622d328709b4b3b350bef6989289ecbf3b4e55aee0606e88d2458b860ff81ee1dcd9f41b69fe788f820673da",
        "7f96f6b334d08bf154d3a624d47f0669a4c7e81a8821934d5c9a43dde89af9f798",
    ]);
}

#[test]
fn hmac_sha512_256_known_answers() {
    replay::<Hmac<Sha512_256>>([
        "b9206ef83e494103633b174312e7e7656b1b83a2efe00f703673632c1e0ab9b997f42cbc65155385",
        "fe096b0deb55916e21899b26a7982b5c",
        "01eb93487c31e8cc56440679739a18c7c964e7d7fef422d973dcb29f2ef489548563de9f1fe5e3e800e4463f7553bcc8c548aa5bedd7063e84c49079147ab79b589e6ba894e1d5441d8887aa4a67f930abd1836f36ad828da80ac8720cbb7328fe50ecf9",
        "5851c3804f6856f99016da5f365ba614e1ce640a4e1ae2a30d73dedb1dad655362",
    ]);
}

#[test]
fn block_cipher_df_known_answers() {
    assert_eq!(hex::encode(block_cipher_df::<Aes128>(&hex::decode("").unwrap())), "d6133744fb235c51b1959d3edb825acd7793ae7b4aab6a05f3914ee31d6c5e8f");
    assert_eq!(hex::encode(block_cipher_df::<Aes128>(&hex::decode("61").unwrap())), "1f06d335fd25e3219609ccbf4859cba2ad01ffc9eb929227ffd425ced5db558a");
    assert_eq!(hex::encode(block_cipher_df::<Aes128>(&hex::decode("00010203040506").unwrap())), "3d928697623513322dfd6c2676bfa175d6f615d09635dd6351a4d0f4192b722a");
    assert_eq!(hex::encode(block_cipher_df::<Aes128>(&hex::decode("000102030405060708090a0b0c0d0e0f10111213141516").unwrap())), "9baa96ab437fe15d1fe414cba73baf1cbaeb9714b7f427f277c22f1c7da7df22");
    assert_eq!(hex::encode(block_cipher_df::<Aes128>(&hex::decode("000102030405060708090a0b0c0d0e0f101112131415161718191a1b1c1d1e1f202122232425262728292a2b2c2d2e2f303132333435363738393a3b3c3d3e3f").unwrap())), "e004cd92b95cba9f0df3930b0bb77d4fd9a227a1ec374d8ca139064f384eb2c0");
    assert_eq!(hex::encode(block_cipher_df::<Aes192>(&hex::decode("").unwrap())), "8e7cea3a4d24dcba588d80d049042870496148f0e1124a910d2a863673d9dd6b14dc2d0c77ec2ace");
    assert_eq!(hex::encode(block_cipher_df::<Aes192>(&hex::decode("61").unwrap())), "4a9cd1feba25788ba703bc780e6dc57f0431296d0ccd82c3d330916561df38963910d40e6127f80d");
    assert_eq!(hex::encode(block_cipher_df::<Aes192>(&hex::decode("00010203040506").unwrap())), "3efab3ddf0a9f3ebeb1a6cbec4183b8d38cfae42ee00d2c6851ea4cb7a7e18a9b7630a4f28a08d61");
    assert_eq!(hex::encode(block_cipher_df::<Aes192>(&hex::decode("000102030405060708090a0b0c0d0e0f10111213141516").unwrap())), "7e6276c3be96ecf7145692dbc007de78283d70a77f7ebb47d15e6dd1ead220a5e60633661f5bfead");
    assert_eq!(hex::encode(block_cipher_df::<Aes192>(&hex::decode("000102030405060708090a0b0c0d0e0f101112131415161718191a1b1c1d1e1f202122232425262728292a2b2c2d2e2f303132333435363738393a3b3c3d3e3f").unwrap())), "85b266168c405eaf500a387d55b3c491a731bf486ded35d7aea03403ce10c407f5ceb9f147942740");
    assert_eq!(hex::encode(block_cipher_df::<Aes256>(&hex::decode("").unwrap())), "9ae8601cc417bb00779a8d46a2017ca4c707a30a2912c4284bd6260dd42d005eb650d4e900c7e7e7f8443f9a9c3e0194");
    assert_eq!(hex::encode(block_cipher_df::<Aes256>(&hex::decode("61").unwrap())), "5bcac86f5e365a18761c2500b9b6ba0f53307d8010e6773b4c742d8ee7e895cda2d654d5a0337c6a48782147354851d7");
    assert_eq!(hex::encode(block_cipher_df::<Aes256>(&hex::decode("00010203040506").unwrap())), "1f8faf91d6319e29dfedf36912dc020a19dae9b952b3ea3ab45485dfc5b0bea62221d9343b3d2829254b533de4b0824f");
    assert_eq!(hex::encode(block_cipher_df::<Aes256>(&hex::decode("000102030405060708090a0b0c0d0e0f10111213141516").unwrap())), "19023496f0549d9e7e7f6fbd767f0194ebee3b0d54523d123dd8924b8a963c0e0cf7ed45f5c265ed99bc8573cd21b3d3");
    assert_eq!(hex::encode(block_cipher_df::<Aes256>(&hex::decode("000102030405060708090a0b0c0d0e0f101112131415161718191a1b1c1d1e1f202122232425262728292a2b2c2d2e2f303132333435363738393a3b3c3d3e3f").unwrap())), "895139a1b752f16a7309d231a87b4e547eebc881bbf5d4f0c277bca587568e64961149ea8d01c6589b3e107b6b509ca0");
}

#[test]
fn block_cipher_df_of_empty_input_has_48_bytes_for_aes256() {
    let seed = block_cipher_df::<Aes256>(&[]);
    assert_eq!(seed.len(), 48);
    assert_eq!(hex::encode(seed), "9ae8601cc417bb00779a8d46a2017ca4c707a30a2912c4284bd6260dd42d005eb650d4e900c7e7e7f8443f9a9c3e0194");
}

#[test]
fn bcc_known_answers() {
    assert_eq!(hex::encode(bcc::<Aes128>(&hex::decode("000102030405060708090a0b0c0d0e0f").unwrap(), &hex::decode("").unwrap())), "00000000000000000000000000000000");
    assert_eq!(hex::encode(bcc::<Aes128>(&hex::decode("000102030405060708090a0b0c0d0e0f").unwrap(), &hex::decode("000102030405060708090a0b0c0d0e0f").unwrap())), "0a940bb5416ef045f1c39458c653ea5a");
    assert_eq!(hex::encode(bcc::<Aes128>(&hex::decode("000102030405060708090a0b0c0d0e0f").unwrap(), &hex::decode("000102030405060708090a0b0c0d0e0f101112131415161718191a1b1c1d1e1f202122232425262728292a2b2c2d2e2f").unwrap())), "7e163e30ea49d32152a51a08a10ec02d");
    assert_eq!(hex::encode(bcc::<Aes192>(&hex::decode("000102030405060708090a0b0c0d0e0f1011121314151617").unwrap(), &hex::decode("").unwrap())), "00000000000000000000000000000000");
    assert_eq!(hex::encode(bcc::<Aes192>(&hex::decode("000102030405060708090a0b0c0d0e0f1011121314151617").unwrap(), &hex::decode("000102030405060708090a0b0c0d0e0f").unwrap())), "0060bffe46834bb8da5cf9a61ff220ae");
    assert_eq!(hex::encode(bcc::<Aes192>(&hex::decode("000102030405060708090a0b0c0d0e0f1011121314151617").unwrap(), &hex::decode("000102030405060708090a0b0c0d0e0f101112131415161718191a1b1c1d1e1f202122232425262728292a2b2c2d2e2f").unwrap())), "768c7a588c69a095769d7625ba2a6156");
    assert_eq!(hex::encode(bcc::<Aes256>(&hex::decode("000102030405060708090a0b0c0d0e0f101112131415161718191a1b1c1d1e1f").unwrap(), &hex::decode("").unwrap())), "00000000000000000000000000000000");
    assert_eq!(hex::encode(bcc::<Aes256>(&hex::decode("000102030405060708090a0b0c0d0e0f101112131415161718191a1b1c1d1e1f").unwrap(), &hex::decode("000102030405060708090a0b0c0d0e0f").unwrap())), "5a6e045708fb7196f02e553d02c3a692");
    assert_eq!(hex::encode(bcc::<Aes256>(&hex::decode("000102030405060708090a0b0c0d0e0f101112131415161718191a1b1c1d1e1f").unwrap(), &hex::decode("000102030405060708090a0b0c0d0e0f101112131415161718191a1b1c1d1e1f202122232425262728292a2b2c2d2e2f").unwrap())), "78e2e0038b691b8bedfc32116811da59");
}

#[test]
fn hash_df_known_answers() {
    assert_eq!(hex::encode(hash_df::<Sha224>(&hex::decode("").unwrap())), "b314508f42f7e774d9d150358afe793963f3a7043b4cd514beb0e57be1f5457965a02582790bd1a9dee1402928b157d8bf1faa6275bbf0");
    assert_eq!(hex::encode(hash_df::<Sha224>(&hex::decode("616263").unwrap())), "ab2fad10bb4bb651005d6f31dbd3b6ace927a239412bceee78b3e56d01c94173fa71970ef6916e8dcef4ef4f262fd0bbcaf69d47511798");
    assert_eq!(hex::encode(hash_df::<Sha224>(&hex::decode("000102030405060708090a0b0c0d0e0f101112131415161718191a1b1c1d1e1f202122232425262728292a2b2c2d2e2f303132333435363738393a3b3c3d3e3f404142434445464748494a4b4c4d4e4f505152535455565758595a5b5c5d5e5f60616263").unwrap())), "105e2d66d743aeb9d1177617d4e9ede717d1295c8f6731f0be56f410aeffd9b1989c0fdc97d3d7ece6377a208345df6a7cf6252717fb16");
    assert_eq!(hex::encode(hash_df::<Sha256>(&hex::decode("").unwrap())), "08db43c4d3358a5fa441d3799fa5d91b5fbe834aaf0e0fbbedff264690c08c9faa3a70f92b795bda3ab718b47c6edaa0192e9b9aa6fe7a");
    assert_eq!(hex::encode(hash_df::<Sha256>(&hex::decode("616263").unwrap())), "e56162a04a237b49970758bfbc2a4205fa9d710086a2c69e1c3e0ae2ef099681b65dbddf676e82368c7eb5e8b8b390711653e987e3855f");
    assert_eq!(hex::encode(hash_df::<Sha256>(&hex::decode("000102030405060708090a0b0c0d0e0f101112131415161718191a1b1c1d1e1f202122232425262728292a2b2c2d2e2f303132333435363738393a3b3c3d3e3f404142434445464748494a4b4c4d4e4f505152535455565758595a5b5c5d5e5f60616263").unwrap())), "c9c6827c3900e9b21299d7e56080f2321bd419115eb5d81451089b4a0139705d590426add5fa37b4716525b8c58a535587cc5c33105cef");
    assert_eq!(hex::encode(hash_df::<Sha384>(&hex::decode("").unwrap())), "03a36ecdf2d803b46d693b636b546635fa6285871cd39e6de504c337e1b7bfb1bbd239607550126686b7f55541890978c784c54ab54f5744a75eebe7438e692869f0281d57bc55d5a9fcc2484b11ad39a7f7354db1ebde727c9691934b863c45890b654b08fc8fa425206a8dbaeda9");
    assert_eq!(hex::encode(hash_df::<Sha384>(&hex::decode("616263").unwrap())), "0b8d0058d890cc5061e31480f2c6bee6b0d8d0b98430d6a3a87a6ea126375fed8cd777b903cfbd7cbd2a0951b3320cd93a7ead661b48f1da4d4a1afc3673bae743e36ba2d9833c1c000a33b65a874beb62397c02910535feb2f50c218e53cadbf0b86f1f072b39b00c5e63466c8934");
    assert_eq!(hex::encode(hash_df::<Sha384>(&hex::decode("000102030405060708090a0b0c0d0e0f101112131415161718191a1b1c1d1e1f202122232425262728292a2b2c2d2e2f303132333435363738393a3b3c3d3e3f404142434445464748494a4b4c4d4e4f505152535455565758595a5b5c5d5e5f60616263").unwrap())), "54ab926222646fc8ca7ca19e974998f0f15efbd50cd1e919b8f31837c99a7c559c6d500e7f92ad00479fcb481c1979c27575d902643553c910fd6b40e6435aa1050b3022093f8549fb5b072a56449fd753619d94c59972be15c3ba92d5311df48998c5b9ac8782dc488234220727d2");
    assert_eq!(hex::encode(hash_df::<Sha512>(&hex::decode("").unwrap())), "3e226456bf592f441da979b2879409fc6f0e6192b8e7a74ab3c33ebe6211bc4d4e1319fa123ab65d34f1db2a58545c56fdbba651cffc3193bad6df02b799e3aaaa0c62548a2b532621bf68328e3354678049ba8d9f1dc4ab9b96e348df64d673f6e4aa1e2a772f8cd1a86bec20d436");
    assert_eq!(hex::encode(hash_df::<Sha512>(&hex::decode("616263").unwrap())), "6ff907d08297f48e4704d070f5b6b1f0d8de3bae3232fbfbf255110e24a183ad7a9dd752ad87b37a304f2e8609d56c3a7df2b640c43b5a9260c0314641d1b8feb180c113c6be299dda27a3745d7992a4e063fbc3c8946a8baf9791c60e97fc8d8287e5cd656da88c5231cbe3992244");
    assert_eq!(hex::encode(hash_df::<Sha512>(&hex::decode("000102030405060708090a0b0c0d0e0f101112131415161718191a1b1c1d1e1f202122232425262728292a2b2c2d2e2f303132333435363738393a3b3c3d3e3f404142434445464748494a4b4c4d4e4f505152535455565758595a5b5c5d5e5f60616263").unwrap())), "4bac64b18bcf0b0b2e7973cc66e1ab19831beaaf74de0af4c51428631fe653e7afe9db8622bb02a8feea3a695aea542aa94365d90c464250eabebd1ba2d54257f98c20c87a9f9c7b5274df022c1560c85e27b550c9fe7d6ebeb2b9076530a47644076aee4390f7d55ad87f1d573ed7");
    assert_eq!(hex::encode(hash_df::<Sha512_224>(&hex::decode("").unwrap())), "24827cdf8d605f8a2b974dc05b51187e79a69a72c5690e7a639b12ba839add529c4c3805cd80a4c09108a5814c6b8aabcc89ff181bea4e");
    assert_eq!(hex::encode(hash_df::<Sha512_224>(&hex::decode("616263").unwrap())), "5bfd0e4a0ed59a4651741fb035903cbea7bf52c01a656dbd7719d3b841298c77dd447ac670da5b46085711bf383d129613f5bbf9213e0f");
    assert_eq!(hex::encode(hash_df::<Sha512_224>(&hex::decode("000102030405060708090a0b0c0d0e0f101112131415161718191a1b1c1d1e1f202122232425262728292a2b2c2d2e2f303132333435363738393a3b3c3d3e3f404142434445464748494a4b4c4d4e4f505152535455565758595a5b5c5d5e5f60616263").unwrap())), "24313ad5afa7818b14af64b2f8523e7e2b359e128f0f12818088dadc74b95b303b1ef99d77ac77181cc039a7f7b8772695b90e5e0de4c3");
    assert_eq!(hex::encode(hash_df::<Sha512_256>(&hex::decode("").unwrap())), "63d7499374d116b51364dd152d022fba191e1f774a561728db556647672d54ace6a20ea4c61b1f309affeaed87ff4f437653e955b6dd59");
    assert_eq!(hex::encode(hash_df::<Sha512_256>(&hex::decode("616263").unwrap())), "cee06832bfd85af35d1579d0ee9a89d4fd69a16deb91722e53ba66fa5aec8df10b4ed7696136fb82a8521c89c96246042a0f3fac606cb7");
    assert_eq!(hex::encode(hash_df::<Sha512_256>(&hex::decode("000102030405060708090a0b0c0d0e0f101112131415161718191a1b1c1d1e1f202122232425262728292a2b2c2d2e2f303132333435363738393a3b3c3d3e3f404142434445464748494a4b4c4d4e4f505152535455565758595a5b5c5d5e5f60616263").unwrap())), "ccdc7e85ea800669247f4f923f302e917d04de8fb031cf2d3951b2e348d709b106b76efe0ef18b8451372af9e31f1c388c996b3965bde1");
}

#[test]
fn derived_seeds_have_the_seed_length() {
    assert_eq!(block_cipher_df::<Aes128>(b"x").len(), 32);
    assert_eq!(block_cipher_df::<Aes192>(b"x").len(), 40);
    assert_eq!(block_cipher_df::<Aes256>(b"x").len(), 48);
    assert_eq!(hash_df::<Sha224>(b"x").len(), 55);
    assert_eq!(hash_df::<Sha256>(b"x").len(), 55);
    assert_eq!(hash_df::<Sha512_224>(b"x").len(), 55);
    assert_eq!(hash_df::<Sha512_256>(b"x").len(), 55);
    assert_eq!(hash_df::<Sha384>(b"x").len(), 111);
    assert_eq!(hash_df::<Sha512>(b"x").len(), 111);
}

#[test]
fn hash_drbg_takes_the_reseed_counter_into_its_state() {
    let entropy: Vec<u8> = (0u8..32).collect();
    let nonce: Vec<u8> = (100u8..116).collect();
    let mut drbg = kondrbg::hash_based::hash::Hash::<Sha256>::instantiate(&entropy, &nonce, b"abc");
    let mut first = [0u8; 20];
    drbg.generate(&mut first, &[], 0x0102030405060708);
    assert_eq!(hex::encode(first), "0367eb9a0b7e614619a24754e3d3d25714a293a3");
    let mut second = [0u8; 20];
    drbg.generate(&mut second, &[], 1);
    assert_eq!(hex::encode(second), "9ce9ad297646d14be92b55008de72bcaa1ce0199");
}

#[test]
fn hmac_drbg_leaves_the_reseed_counter_out() {
    let entropy: Vec<u8> = (0u8..32).collect();
    let nonce: Vec<u8> = (100u8..116).collect();
    let mut drbg = Hmac::<Sha256>::instantiate(&entropy, &nonce, b"abc");
    let mut first = [0u8; 20];
    drbg.generate(&mut first, &[], 0x0102030405060708);
    assert_eq!(hex::encode(first), "92990c2f8c54ab56c4c7a86d87fc95c5b81f3aba");
    let mut second = [0u8; 20];
    drbg.generate(&mut second, &[], 1);
    assert_eq!(hex::encode(second), "0c701c715c3ab4baf70a0d8e686517df4cd27cf2");
}

#[test]
fn hashgen_leaves_the_state_alone() {
    let entropy: Vec<u8> = (0u8..32).collect();
    let nonce: Vec<u8> = (100u8..116).collect();
    let drbg = kondrbg::hash_based::hash::Hash::<Sha384>::instantiate(&entropy, &nonce, b"abc");
    let mut once = [0u8; 100];
    drbg.hashgen(&mut once);
    assert_eq!(hex::encode(once), "27336d2172b738663a1406c83e32db1d545eb785af79bc85eacba5880c72c745b488264068655c05289399a1c6c420327e69c95961f99b4ea2115a62952c0467f4afec84b722abcd14dad7984934afffe43668eabae8525ebeafcd3cf55479fe05d07992");
    let mut again = [0u8; 100];
    drbg.hashgen(&mut again);
    assert_eq!(once, again);
}

#[test]
fn updates_move_the_state() {
    let entropy: Vec<u8> = (0u8..32).collect();
    let nonce: Vec<u8> = (100u8..116).collect();

    let mut ctr = Ctr::<Aes128>::instantiate(&entropy[..16], &nonce[..8], &[]);
    let provided: Vec<u8> = (0u8..32).collect();
    ctr.update(&provided);
    let mut out = [0u8; 32];
    ctr.generate(&mut out, &[], 1);
    assert_eq!(hex::encode(out), "37156a5e4168ba796a0b501512509fc989ee7426a2cb68983a6408c3d129563d");

    let mut hmac = Hmac::<Sha512>::instantiate(&entropy, &nonce, &[]);
    hmac.update(b"provided");
    hmac.update(&[]);
    let mut out = [0u8; 32];
    hmac.generate(&mut out, &[], 1);
    assert_eq!(hex::encode(out), "5353224c42545e62438d49d89e93bbd4e3f66ad65dbd2dc5e5eaa74371bbc0f7");
}
