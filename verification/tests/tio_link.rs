use base64::Engine;
use sharelink::tio::link::{decode_field, DecodeError, LinkDomain, LinkSchema, LinkState};
use sharelink::weburl::UrlParts;
use url::Url;

#[test]
fn roundtrip_v1() {
    // A link from 2016-09-23
    let url = "http://slashes.tryitonline.net/#code=L-KYgy_imIM4L-KYgw&input=";
    let state = LinkState {
        schema: LinkSchema::V1,
        domain: LinkDomain::TryItOnline,
        language: "slashes".into(),
        code: "/☃/☃8/☃".into(),
        input: "".into(),
        args: vec![],
        debug: false,
    };
    assert_eq!(state, LinkState::decode_v1(url).unwrap());
    assert_eq!(url, state.encode_v1());

    // A link with args from 2016-12-20
    let url = "http://v.tryitonline.net/#code=w6kKw4DDqTEyfERrSsOyaMOpLcOyw7NeJC8SYQ&input=&args=LS0+LTY";
    let state = LinkState {
        schema: LinkSchema::V1,
        domain: LinkDomain::TryItOnline,
        language: "v".into(),
        code: "é\nÀé12|DkJòhé-òó^$/\u{0012}a".into(),
        input: "".into(),
        args: vec!["--".into(), "-6".into()],
        debug: false,
    };
    assert_eq!(state, LinkState::decode_v1(url).unwrap());
    assert_eq!(url, state.encode_v1());

    // A link with debug from 2016-09-10
    let url = "http://golfscript.tryitonline.net/#code=eyg7KTt9OnI7IiwgIiUoclwociBuKzpjOzsuLFwnfCclLixAXC0pKTpsOzA6bTt7LiwwPn17IiAibSpcKC4sbSs6bSBsXC0iICJcKitjQH13aGlsZQ&input=IkhlbGxvLHxXb3JsZCF8VGhpc3xpc3xHb2xmU2NyaXB0IiwgIiMi&debug=on";
    let state = LinkState {
        schema: LinkSchema::V1,
        domain: LinkDomain::TryItOnline,
        language: "golfscript".into(),
        code: "{(;);}:r;\", \"%(r\\(r n+:c;;.,\\'|'%.,@\\-)):l;0:m;{.,0>}{\" \"m*\\(.,m+:m l\\-\" \"\\*+c@}while".into(),
        input: "\"Hello,|World!|This|is|GolfScript\", \"#\"".into(),
        args: vec![],
        debug: true,
    };
    assert_eq!(state, LinkState::decode_v1(url).unwrap());
    assert_eq!(url, state.encode_v1());

    // A link with debug from 2016-12-03
    let url = "http://05ab1e.tryitonline.net/#code=Iz4hPlwnblwnclwnb1wnY1wsLCwsLEAncydhJ2wnYSdkSizDqSdnJ24rJ2krJ3MrJ3MrJ2UrJ3IrJ2QrLsOzWy1dK1stLS0tLT4rKys8XT4uKysrKysrKysrKysuKysrWy0-KysrPF0-KysuK1stLS0-KzxdPi4rKytIJ3R1cmtleSd-O29vb29vb29vJ3N3ZWV0dGVhLjAtNSsrKysrKysrZmZmZmZmZmZmJydgJwojICAgPjk5KmQxK2MzLWM4OSo0K2RjYzk5KjIrYyF8JGw5RDMtTzkzKytkT084K08xK08xLU81K09PMStPOTUrK08uCiMgPidwJygpJ3UnKCknbScoKSdwJygpJ2snKCknaScoKSduJygpJ3AnKCknaScoKSdlJygpXApwcmludCdiaXNjdWl0cyc7J3BlY2FucGllJyMic3R1ZmZpbmciUidjISdvISdyISduISdiISdyISdlISdhISdkISobZGRkZGRkU2FwcGxlcGll&input=&debug=on";
    let state = LinkState {
        schema: LinkSchema::V1,
        domain: LinkDomain::TryItOnline,
        language: "05ab1e".into(),
        code: "#>!>\\'n\\'r\\'o\\'c\\,,,,,@'s'a'l'a'dJ,é'g'n+'i+'s+'s+'e+'r+'d+.ó[-]+[----->+++<]>.+++++++++++.+++[->+++<]>++.+[--->+<]>.+++H'turkey'~;oooooooo'sweettea.0-5++++++++fffffffff''`'\n#   >99*d1+c3-c89*4+dcc99*2+c!|$l9D3-O93++dOO8+O1+O1-O5+OO1+O95++O.\n# >'p'()'u'()'m'()'p'()'k'()'i'()'n'()'p'()'i'()'e'()\\\nprint'biscuits';'pecanpie'#\"stuffing\"R'c!'o!'r!'n!'b!'r!'e!'a!'d!*\u{001b}ddddddSapplepie".into(),
        input: "".into(),
        args: vec![],
        debug: true,
    };
    assert_eq!(state, LinkState::decode_v1(url).unwrap());
    assert_eq!(url, state.encode_v1());
}

#[test]
fn changed_domain() {
    // A link from 2016-11-23, that was updated on 2018-05-26
    let url = "http://05ab1e.tryitonline.net/#code=OUxKLnDDu3Z5OXlnLcO6w7ss&input=";
    let mut state = LinkState {
        schema: LinkSchema::V1,
        domain: LinkDomain::TryItOnline,
        language: "05ab1e".into(),
        code: "9LJ.pûvy9yg-úû,".into(),
        input: "".into(),
        args: vec![],
        debug: false,
    };
    assert_eq!(state, LinkState::decode_v1(url).unwrap());
    assert_eq!(url, state.encode_v1());
    let url = "https://tio.run/#05ab1e#code=OUxKLnDDu3Z5OXlnLcO6w7ss&input=";
    state.domain = LinkDomain::Tio;
    assert_eq!(state, LinkState::decode_v1(url).unwrap());
    assert_eq!(url, state.encode_v1());

    // A link from 2016-12-09, that was updated 2017-04-06
    let url = "http://retina.tryitonline.net/#code=VT11bmljaHI7cz1VKDM5KSozO189dScnJ1xuI1U9dW5pY2hyO3M9VSgzOSkqMztfPXUlcy5yZXBsYWNlKFUoOSksVSg5NikpO3ByaW50IF8lJShzK18rcykucmVwbGFjZShVKDEwKSxVKDkyKSsnbicpLnJlcGxhY2UoVSg5NiksVSg5KSkucmVwbGFjZShVKDE3OCksVSgxNzkpKS5yZXBsYWNlKFUoMTgzKSxVKDE4NCkpLnJlcGxhY2UoVSgxODIpLFUoMTgzKSkjfMK2I8K3cHJpbnQiV3JvbmcgbGFuZ3VhZ2UhIsK3Iz8uKnR8IsK3wrYjezJ9fF4uwrZcbiMxCSNcblxuI1QJwrItwrkJX28JW17CuV1cbm49Y2hyKDEwKTtwcmludCBuK24uam9pbihbJ3ByaW50Ildyb25nIGxhbmd1YWdlISInLCcjPy4qdHwiJ10pK25cbicnJy5yZXBsYWNlKFUoOSksVSg5NikpO3ByaW50IF8lKHMrXytzKS5yZXBsYWNlKFUoMTApLFUoOTIpKyduJykucmVwbGFjZShVKDk2KSxVKDkpKS5yZXBsYWNlKFUoMTc4KSxVKDE3OSkpLnJlcGxhY2UoVSgxODMpLFUoMTg0KSkucmVwbGFjZShVKDE4MiksVSgxODMpKSN8CiPCtnByaW50Ildyb25nIGxhbmd1YWdlISLCtiM_Lip0fCLCtgojezJ9fF4uCg&input=";
    let mut state = LinkState {
        schema: LinkSchema::V1,
        domain: LinkDomain::TryItOnline,
        language: "retina".into(),
        code: "U=unichr;s=U(39)*3;_=u'''\\n#U=unichr;s=U(39)*3;_=u%s.replace(U(9),U(96));print _%%(s+_+s).replace(U(10),U(92)+'n').replace(U(96),U(9)).replace(U(178),U(179)).replace(U(183),U(184)).replace(U(182),U(183))#|¶#·print\"Wrong language!\"·#?.*t|\"·¶#{2}|^.¶\\n#1\t#\\n\\n#T\t²-¹\t_o\t[^¹]\\nn=chr(10);print n+n.join(['print\"Wrong language!\"','#?.*t|\"'])+n\\n'''.replace(U(9),U(96));print _%(s+_+s).replace(U(10),U(92)+'n').replace(U(96),U(9)).replace(U(178),U(179)).replace(U(183),U(184)).replace(U(182),U(183))#|\n#¶print\"Wrong language!\"¶#?.*t|\"¶\n#{2}|^.\n".into(),
        input: "".into(),
        args: vec![],
        debug: false,
    };
    assert_eq!(state, LinkState::decode_v1(url).unwrap());
    assert_eq!(url, state.encode_v1());
    let url = "https://tio.run/nexus/retina#code=VT11bmljaHI7cz1VKDM5KSozO189dScnJ1xuI1U9dW5pY2hyO3M9VSgzOSkqMztfPXUlcy5yZXBsYWNlKFUoOSksVSg5NikpO3ByaW50IF8lJShzK18rcykucmVwbGFjZShVKDEwKSxVKDkyKSsnbicpLnJlcGxhY2UoVSg5NiksVSg5KSkucmVwbGFjZShVKDE3OCksVSgxNzkpKS5yZXBsYWNlKFUoMTgzKSxVKDE4NCkpLnJlcGxhY2UoVSgxODIpLFUoMTgzKSkjfMK2I8K3cHJpbnQiV3JvbmcgbGFuZ3VhZ2UhIsK3Iz8uKnR8IsK3wrYjezJ9fF4uwrZcbiMxCSNcblxuI1QJwrItwrkJX28JW17CuV1cbm49Y2hyKDEwKTtwcmludCBuK24uam9pbihbJ3ByaW50Ildyb25nIGxhbmd1YWdlISInLCcjPy4qdHwiJ10pK25cbicnJy5yZXBsYWNlKFUoOSksVSg5NikpO3ByaW50IF8lKHMrXytzKS5yZXBsYWNlKFUoMTApLFUoOTIpKyduJykucmVwbGFjZShVKDk2KSxVKDkpKS5yZXBsYWNlKFUoMTc4KSxVKDE3OSkpLnJlcGxhY2UoVSgxODMpLFUoMTg0KSkucmVwbGFjZShVKDE4MiksVSgxODMpKSN8CiPCtnByaW50Ildyb25nIGxhbmd1YWdlISLCtiM_Lip0fCLCtgojezJ9fF4uCg&input=";
    state.domain = LinkDomain::TioNexus;
    assert_eq!(state, LinkState::decode_v1(url).unwrap());
    assert_eq!(url, state.encode_v1());
}

#[test]
fn base64_plus() {
    // These three links from the same post inexplicably use `+` in base64

    // Links from 2017-01-26
    let url = "http://befunge-98.tryitonline.net/#code=ckA7IkBfLCM6PiInIiJBMWpAIiciOjonJ1wiQF8sIzo+IiciIlwnJzo6IiciOicnXCJQUENHIiciIlwnJzo6IiciOicnXCIwQCNqMSInIjo6JydcIj46IyxfQCInIiI7QDtyIic+ayxAPjsjQGshazE&input=";
    let state = LinkState {
        schema: LinkSchema::V1,
        domain: LinkDomain::TryItOnline,
        language: "befunge-98".into(),
        code: "r@;\"@_,#:>\"'\"\"A1j@\"'\"::''\\\"@_,#:>\"'\"\"\\''::\"'\":''\\\"PPCG\"'\"\"\\''::\"'\":''\\\"0@#j1\"'\"::''\\\">:#,_@\"'\"\";@;r\"'>k,@>;#@k!k1".into(),
        input: "".into(),
        args: vec![],
        debug: false,
    };
    assert_eq!(state, LinkState::decode_v1(url).unwrap());
    let url = "http://befunge.tryitonline.net/#code=MWojQDAiR0NQUCI+OiMsX0A&input=";
    let state = LinkState {
        schema: LinkSchema::V1,
        domain: LinkDomain::TryItOnline,
        language: "befunge".into(),
        code: "1j#@0\"GCPP\">:#,_@".into(),
        input: "".into(),
        args: vec![],
        debug: false,
    };
    assert_eq!(state, LinkState::decode_v1(url).unwrap());

    // Link from 2018-01-13
    let url = "http://befunge-96-mtfi.tryitonline.net/#code=QTFqQCJAXywjOj4iJyIiUFBDRyInIiIwQCNqMSI+OiMsX0A&input=";
    let state = LinkState {
        schema: LinkSchema::V1,
        domain: LinkDomain::TryItOnline,
        language: "befunge-96-mtfi".into(),
        code: "A1j@\"@_,#:>\"'\"\"PPCG\"'\"\"0@#j1\">:#,_@".into(),
        input: "".into(),
        args: vec![],
        debug: false,
    };
    assert_eq!(state, LinkState::decode_v1(url).unwrap());
}

fn tio_links() -> Vec<&'static str> {
    vec![
        "http://slashes.tryitonline.net/#code=L-KYgy_imIM4L-KYgw&input=",
        "http://v.tryitonline.net/#code=w6kKw4DDqTEyfERrSsOyaMOpLcOyw7NeJC8SYQ&input=&args=LS0+LTY",
        "http://golfscript.tryitonline.net/#code=eyg7KTt9OnI7IiwgIiUoclwociBuKzpjOzsuLFwnfCclLixAXC0pKTpsOzA6bTt7LiwwPn17IiAibSpcKC4sbSs6bSBsXC0iICJcKitjQH13aGlsZQ&input=IkhlbGxvLHxXb3JsZCF8VGhpc3xpc3xHb2xmU2NyaXB0IiwgIiMi&debug=on",
        "http://05ab1e.tryitonline.net/#code=Iz4hPlwnblwnclwnb1wnY1wsLCwsLEAncydhJ2wnYSdkSizDqSdnJ24rJ2krJ3MrJ3MrJ2UrJ3IrJ2QrLsOzWy1dK1stLS0tLT4rKys8XT4uKysrKysrKysrKysuKysrWy0-KysrPF0-KysuK1stLS0-KzxdPi4rKytIJ3R1cmtleSd-O29vb29vb29vJ3N3ZWV0dGVhLjAtNSsrKysrKysrZmZmZmZmZmZmJydgJwojICAgPjk5KmQxK2MzLWM4OSo0K2RjYzk5KjIrYyF8JGw5RDMtTzkzKytkT084K08xK08xLU81K09PMStPOTUrK08uCiMgPidwJygpJ3UnKCknbScoKSdwJygpJ2snKCknaScoKSduJygpJ3AnKCknaScoKSdlJygpXApwcmludCdiaXNjdWl0cyc7J3BlY2FucGllJyMic3R1ZmZpbmciUidjISdvISdyISduISdiISdyISdlISdhISdkISobZGRkZGRkU2FwcGxlcGll&input=&debug=on",
        "http://05ab1e.tryitonline.net/#code=OUxKLnDDu3Z5OXlnLcO6w7ss&input=",
        "https://tio.run/#05ab1e#code=OUxKLnDDu3Z5OXlnLcO6w7ss&input=",
        "http://retina.tryitonline.net/#code=VT11bmljaHI7cz1VKDM5KSozO189dScnJ1xuI1U9dW5pY2hyO3M9VSgzOSkqMztfPXUlcy5yZXBsYWNlKFUoOSksVSg5NikpO3ByaW50IF8lJShzK18rcykucmVwbGFjZShVKDEwKSxVKDkyKSsnbicpLnJlcGxhY2UoVSg5NiksVSg5KSkucmVwbGFjZShVKDE3OCksVSgxNzkpKS5yZXBsYWNlKFUoMTgzKSxVKDE4NCkpLnJlcGxhY2UoVSgxODIpLFUoMTgzKSkjfMK2I8K3cHJpbnQiV3JvbmcgbGFuZ3VhZ2UhIsK3Iz8uKnR8IsK3wrYjezJ9fF4uwrZcbiMxCSNcblxuI1QJwrItwrkJX28JW17CuV1cbm49Y2hyKDEwKTtwcmludCBuK24uam9pbihbJ3ByaW50Ildyb25nIGxhbmd1YWdlISInLCcjPy4qdHwiJ10pK25cbicnJy5yZXBsYWNlKFUoOSksVSg5NikpO3ByaW50IF8lKHMrXytzKS5yZXBsYWNlKFUoMTApLFUoOTIpKyduJykucmVwbGFjZShVKDk2KSxVKDkpKS5yZXBsYWNlKFUoMTc4KSxVKDE3OSkpLnJlcGxhY2UoVSgxODMpLFUoMTg0KSkucmVwbGFjZShVKDE4MiksVSgxODMpKSN8CiPCtnByaW50Ildyb25nIGxhbmd1YWdlISLCtiM_Lip0fCLCtgojezJ9fF4uCg&input=",
        "https://tio.run/nexus/retina#code=VT11bmljaHI7cz1VKDM5KSozO189dScnJ1xuI1U9dW5pY2hyO3M9VSgzOSkqMztfPXUlcy5yZXBsYWNlKFUoOSksVSg5NikpO3ByaW50IF8lJShzK18rcykucmVwbGFjZShVKDEwKSxVKDkyKSsnbicpLnJlcGxhY2UoVSg5NiksVSg5KSkucmVwbGFjZShVKDE3OCksVSgxNzkpKS5yZXBsYWNlKFUoMTgzKSxVKDE4NCkpLnJlcGxhY2UoVSgxODIpLFUoMTgzKSkjfMK2I8K3cHJpbnQiV3JvbmcgbGFuZ3VhZ2UhIsK3Iz8uKnR8IsK3wrYjezJ9fF4uwrZcbiMxCSNcblxuI1QJwrItwrkJX28JW17CuV1cbm49Y2hyKDEwKTtwcmludCBuK24uam9pbihbJ3ByaW50Ildyb25nIGxhbmd1YWdlISInLCcjPy4qdHwiJ10pK25cbicnJy5yZXBsYWNlKFUoOSksVSg5NikpO3ByaW50IF8lKHMrXytzKS5yZXBsYWNlKFUoMTApLFUoOTIpKyduJykucmVwbGFjZShVKDk2KSxVKDkpKS5yZXBsYWNlKFUoMTc4KSxVKDE3OSkpLnJlcGxhY2UoVSgxODMpLFUoMTg0KSkucmVwbGFjZShVKDE4MiksVSgxODMpKSN8CiPCtnByaW50Ildyb25nIGxhbmd1YWdlISLCtiM_Lip0fCLCtgojezJ9fF4uCg&input=",
        "http://befunge-98.tryitonline.net/#code=ckA7IkBfLCM6PiInIiJBMWpAIiciOjonJ1wiQF8sIzo+IiciIlwnJzo6IiciOicnXCJQUENHIiciIlwnJzo6IiciOicnXCIwQCNqMSInIjo6JydcIj46IyxfQCInIiI7QDtyIic+ayxAPjsjQGshazE&input=",
        "http://befunge.tryitonline.net/#code=MWojQDAiR0NQUCI+OiMsX0A&input=",
        "http://befunge-96-mtfi.tryitonline.net/#code=QTFqQCJAXywjOj4iJyIiUFBDRyInIiIwQCNqMSI+OiMsX0A&input=",
        "http://cubically.tryitonline.net/",
        "http://tryitonline.net/#code=&input=",
    ]
}

#[test]
fn roundtrip_all() {
    for link in tio_links() {
        let state = LinkState::decode_v1(link).unwrap();
        let encoded = state.encode_v1();
        if encoded != link {
            // Language-only links like http://cubically.tryitonline.net/
            // encode with empty fragment fields
            if state.domain == LinkDomain::TryItOnline
                && Url::parse(link).unwrap().fragment().is_none()
            {
                continue;
            }
            if link.replace("+", "-") == encoded {
                println!("Differ by `+`: {link} encodes to {encoded}");
                continue;
            }
            assert_eq!(encoded, link, "encoding {link}");
        }
    }
}

#[test]
fn a_link_that_only_names_a_language_is_empty() {
    let state = LinkState::decode_v1("http://cubically.tryitonline.net/").unwrap();
    assert_eq!(
        state,
        LinkState {
            schema: LinkSchema::V1,
            domain: LinkDomain::TryItOnline,
            language: "cubically".into(),
            code: "".into(),
            input: "".into(),
            args: vec![],
            debug: false,
        }
    );
    assert_eq!(state.encode_v1(), "http://cubically.tryitonline.net/#code=&input=");
    let state = LinkState::decode_v1("http://tryitonline.net/").unwrap();
    assert_eq!(state.language, "");
    assert_eq!(state.domain, LinkDomain::TryItOnline);
    assert_eq!(state.encode_v1(), "http://tryitonline.net/#code=&input=");
    let state = LinkState::decode_v1("https://tio.run/").unwrap();
    assert_eq!(state.domain, LinkDomain::Tio);
    assert_eq!(state.encode_v1(), "https://tio.run/##code=&input=");
    let state = LinkState::decode_v1("https://tio.run/nexus/jelly").unwrap();
    assert_eq!(state.domain, LinkDomain::TioNexus);
    assert_eq!(state.language, "jelly");
    assert_eq!(state.encode_v1(), "https://tio.run/nexus/jelly#code=&input=");
}

#[test]
fn a_new_state_is_in_the_second_format() {
    let state = LinkState::new();
    assert_eq!(state.schema, LinkSchema::V2);
    assert_eq!(state.domain, LinkDomain::Tio);
    assert_eq!(state, LinkState::default());
    assert_eq!(LinkSchema::default(), LinkSchema::V2);
    assert_eq!(LinkDomain::default(), LinkDomain::Tio);
}

fn sample_tio_state(domain: LinkDomain, args: Vec<&str>, debug: bool) -> LinkState {
    LinkState {
        schema: LinkSchema::V1,
        domain,
        language: "05ab1e".into(),
        code: "9LJ.p\u{fb}vy9yg-\u{fa}\u{fb},??>>".into(),
        input: "a=b&c\n".into(),
        args: args.into_iter().map(String::from).collect(),
        debug,
    }
}

#[test]
fn decode_undoes_encode_on_every_site() {
    for domain in [LinkDomain::Tio, LinkDomain::TioNexus, LinkDomain::TryItOnline] {
        for args in [vec![], vec![""], vec!["--", "-6"], vec!["", "", "x y"]] {
            for debug in [false, true] {
                let state = sample_tio_state(domain, args.clone(), debug);
                let link = state.encode_v1();
                assert_eq!(LinkState::decode_v1(&link).unwrap(), state, "{link}");
            }
        }
    }
}

#[test]
fn the_link_has_its_fields_in_order() {
    let state = sample_tio_state(LinkDomain::Tio, vec!["--", "-6"], true);
    assert_eq!(
        state.encode_v1(),
        "https://tio.run/#05ab1e#code=OUxKLnDDu3Z5OXlnLcO6w7ssPz8-Pg&input=YT1iJmMK&args=LS0+LTY&debug=on"
    );
    let state = sample_tio_state(LinkDomain::TioNexus, vec![], false);
    assert_eq!(
        state.encode_v1(),
        "https://tio.run/nexus/05ab1e#code=OUxKLnDDu3Z5OXlnLcO6w7ssPz8-Pg&input=YT1iJmMK"
    );
    let state = sample_tio_state(LinkDomain::TryItOnline, vec![""], false);
    assert_eq!(
        state.encode_v1(),
        "http://05ab1e.tryitonline.net/#code=OUxKLnDDu3Z5OXlnLcO6w7ssPz8-Pg&input=YT1iJmMK&args="
    );
}

#[test]
fn a_field_is_read_with_either_alphabet() {
    assert_eq!(decode_field("Pz8-Pg").unwrap(), "??>>");
    assert_eq!(decode_field("Pz8+Pg").unwrap(), "??>>");
    assert_eq!(decode_field("Pz8_").unwrap(), "???");
    assert_eq!(decode_field("Pz8/").unwrap(), "???");
    assert_eq!(decode_field("").unwrap(), "");
    assert!(matches!(decode_field("Pz8+Pz8_"), Err(DecodeError::Base64(_))));
    assert!(matches!(decode_field("Pz8="), Err(DecodeError::Base64(_))));
    assert!(matches!(decode_field("_w"), Err(DecodeError::Utf8(_))));
    assert_eq!(sharelink::tio::link::encode_field("??>>").iter().collect::<String>(), "Pz8-Pg");
    assert_eq!(sharelink::tio::link::text_of_bytes(vec![0xe2, 0x98, 0x83]).unwrap(), "\u{2603}");
}

#[test]
fn debug_is_set_by_its_presence() {
    let on = LinkState::decode_v1("https://tio.run/#jelly#code=&input=&debug=on").unwrap();
    assert!(on.debug);
    let yes = LinkState::decode_v1("https://tio.run/#jelly#code=&input=&debug=1").unwrap();
    assert!(yes.debug);
    let empty = LinkState::decode_v1("https://tio.run/#jelly#code=&input=&debug=").unwrap();
    assert!(empty.debug);
    let no_value = LinkState::decode_v1("https://tio.run/#jelly#code=&input=&debug").unwrap();
    assert!(!no_value.debug);
    let absent = LinkState::decode_v1("https://tio.run/#jelly#code=&input=").unwrap();
    assert!(!absent.debug);
}

#[test]
fn a_piece_without_equals_sign_is_passed_over() {
    let state = LinkState::decode_v1("https://tio.run/#jelly#code=Pz8&&stray&input=Pz8").unwrap();
    assert_eq!(state.code, "??");
    assert_eq!(state.input, "??");
}

#[test]
fn each_rejection_has_its_error() {
    assert!(matches!(LinkState::decode_v1("tio.run"), Err(DecodeError::Url(_))));
    match LinkState::decode_v1("https://example.org/#code=") {
        Err(DecodeError::UnknownDomain(d)) => assert_eq!(d, "example.org"),
        other => panic!("{other:?}"),
    }
    match LinkState::decode_v1("https://127.0.0.1/#code=") {
        Err(DecodeError::UnknownDomain(d)) => assert_eq!(d, ""),
        other => panic!("{other:?}"),
    }
    assert!(matches!(
        LinkState::decode_v1("https://tio.run/nexus/jelly#zsh#code="),
        Err(DecodeError::MultipleLanguages)
    ));
    assert!(matches!(
        LinkState::decode_v1("http://jelly.tryitonline.net/#zsh#code="),
        Err(DecodeError::MultipleLanguages)
    ));
    assert!(matches!(
        LinkState::decode_v1("https://tio.run/#jelly#code=Pz8="),
        Err(DecodeError::FieldContainsEquals)
    ));
    match LinkState::decode_v1("https://tio.run/#jelly#code=&output=") {
        Err(DecodeError::UnknownField(k)) => assert_eq!(k, "output"),
        other => panic!("{other:?}"),
    }
    for field in ["code", "input", "args", "debug"] {
        let link = format!("https://tio.run/#jelly#{field}=&{field}=");
        match LinkState::decode_v1(&link) {
            Err(DecodeError::DuplicateField(k)) => assert_eq!(k, field),
            other => panic!("{other:?}"),
        }
    }
    assert!(matches!(
        LinkState::decode_v1("https://tio.run/#jelly#code=*"),
        Err(DecodeError::Base64(_))
    ));
    assert!(matches!(
        LinkState::decode_v1("https://tio.run/#jelly#args=Pz8+*"),
        Err(DecodeError::Base64(_))
    ));
    assert!(matches!(
        LinkState::decode_v1("https://tio.run/#jelly#input=_w"),
        Err(DecodeError::Utf8(_))
    ));
}

#[test]
fn the_first_failure_in_the_fragment_decides() {
    assert!(matches!(
        LinkState::decode_v1("https://tio.run/#jelly#code=*&output="),
        Err(DecodeError::Base64(_))
    ));
    assert!(matches!(
        LinkState::decode_v1("https://tio.run/#jelly#output=&code=*"),
        Err(DecodeError::UnknownField(_))
    ));
    assert!(matches!(
        LinkState::decode_v1("https://tio.run/#jelly#output=a=b"),
        Err(DecodeError::FieldContainsEquals)
    ));
}

#[test]
fn a_link_is_decoded_from_the_parts_of_its_url() {
    let parts = UrlParts {
        domain: Some("v.tryitonline.net".into()),
        path: "/".into(),
        query: vec![("ignored".into(), "pair".into())],
        fragment: Some("code=Pz8&input=&args=LS0+LTY".into()),
    };
    let state = LinkState::from_parts(&parts).unwrap();
    assert_eq!(state.domain, LinkDomain::TryItOnline);
    assert_eq!(state.language, "v");
    assert_eq!(state.code, "??");
    assert_eq!(state.args, vec!["--", "-6"]);
    let parts = UrlParts {
        domain: None,
        path: "/".into(),
        query: vec![],
        fragment: None,
    };
    assert!(matches!(LinkState::from_parts(&parts), Err(DecodeError::UnknownDomain(_))));
    let parts = UrlParts {
        domain: Some("tio.run".into()),
        path: "/nexus/".into(),
        query: vec![],
        fragment: Some("jelly#code=".into()),
    };
    assert!(matches!(LinkState::from_parts(&parts), Err(DecodeError::MultipleLanguages)));
}

#[test]
fn the_failure_of_the_url_safe_reading_is_kept() {
    let first = base64::engine::general_purpose::URL_SAFE_NO_PAD.decode("Pz8+Pz8_").unwrap_err();
    let second = base64::engine::general_purpose::STANDARD_NO_PAD.decode("Pz8+Pz8_");
    assert_ne!(Some(first.clone()), second.clone().err());
    match sharelink::tio::link::decode_bytes("Pz8+Pz8_") {
        Err(DecodeError::Base64(kept)) => assert_eq!(kept, first),
        other => panic!("{other:?}"),
    }
    match sharelink::tio::link::second_reading(first.clone(), second) {
        Err(DecodeError::Base64(kept)) => assert_eq!(kept, first),
        other => panic!("{other:?}"),
    }
    assert_eq!(sharelink::tio::link::second_reading(first, Ok(vec![7])).unwrap(), vec![7]);
    assert_eq!(sharelink::tio::link::decode_bytes("Pz8+Pg").unwrap(), b"??>>".to_vec());
}

#[test]
fn decode_undoes_encode_for_short_plain_languages() {
    let letters: Vec<char> = "abz019-".chars().collect();
    let mut languages: Vec<String> = vec![String::new()];
    for a in &letters {
        languages.push(a.to_string());
        for b in &letters {
            languages.push(format!("{a}{b}"));
            for c in &letters {
                languages.push(format!("{a}{b}{c}"));
            }
        }
    }
    languages.push("befunge-96-mtfi".into());
    languages.push("javascript-node".into());
    let mut unread: Vec<String> = Vec::new();
    for language in &languages {
        for domain in [LinkDomain::Tio, LinkDomain::TioNexus, LinkDomain::TryItOnline] {
            let mut state = sample_tio_state(domain, vec!["-x"], true);
            state.language = language.clone();
            let link = state.encode_v1();
            match LinkState::decode_v1(&link) {
                Ok(read) if read == state => {}
                _ => unread.push(link),
            }
        }
    }
    assert_eq!(unread, Vec::<String>::new());
}
