//! The code generator on concrete programs. The programs are read by a small parser; what `main`
//! returns is found by letting LLVM optimize the module until nothing but its result is left.
use inkwell::context::Context;
use inkwell::memory_buffer::MemoryBuffer;
use inkwell::passes::PassBuilderOptions;
use inkwell::targets::{CodeModel, InitializationConfig, RelocMode, Target, TargetMachine};
use inkwell::OptimizationLevel;
use ulang::ast::{
    AssociatedConst, Attribute, BinOp, Block, EnumDecl, EnumVariant, Expr, Function, GenericParam,
    ImplDecl, MatchArm, Param, Pattern, Program, Stmt, StructDecl, StructField, TraitBound,
    TraitDecl, TraitMethodDef, Type,
};
use ulang::lexer::Lexer;
use ulang::state::{CodeGen, CodegenError};
use ulang::token::{Span, Token};

struct Parser {
    tokens: Vec<(Token, Span)>,
    at: usize,
}

impl Parser {
    fn new(source: &str) -> Parser {
        let mut lexer = Lexer::new(source);
        let mut tokens = Vec::new();
        loop {
            let (token, span) = lexer.next_token().expect("lexer error");
            let last = matches!(token, Token::Eof);
            tokens.push((token, span));
            if last {
                break;
            }
        }
        Parser { tokens, at: 0 }
    }

    fn peek(&self) -> &Token {
        &self.tokens[self.at].0
    }

    fn peek_at(&self, n: usize) -> &Token {
        let i = (self.at + n).min(self.tokens.len() - 1);
        &self.tokens[i].0
    }

    fn span(&self) -> Span {
        self.tokens[self.at].1
    }

    fn next(&mut self) -> Token {
        let t = self.tokens[self.at].0.clone();
        if self.at + 1 < self.tokens.len() {
            self.at += 1;
        }
        t
    }

    fn is(&self, t: Token) -> bool {
        *self.peek() == t
    }

    fn eat(&mut self, t: Token) -> bool {
        if self.is(t) {
            self.next();
            true
        } else {
            false
        }
    }

    fn expect(&mut self, t: Token) {
        assert_eq!(*self.peek(), t, "at token {}", self.at);
        self.next();
    }

    fn ident(&mut self) -> String {
        match self.next() {
            Token::Ident(name) => name,
            Token::Self_ => "self".to_string(),
            other => panic!("expected a name, found {:?}", other),
        }
    }

    fn program(&mut self) -> Program {
        let mut p = Program {
            uses: vec![],
            modules: vec![],
            funcs: vec![],
            structs: vec![],
            enums: vec![],
            traits: vec![],
            impls: vec![],
            type_aliases: vec![],
        };
        while !self.is(Token::Eof) {
            let attribs = self.attributes();
            let is_pub = self.eat(Token::Pub);
            match self.peek().clone() {
                Token::Fn => {
                    let mut f = self.function();
                    f.attribs = attribs;
                    f.is_pub = is_pub;
                    p.funcs.push(f);
                }
                Token::Struct => {
                    let mut d = self.struct_decl();
                    d.attribs = attribs;
                    d.is_pub = is_pub;
                    p.structs.push(d);
                }
                Token::Enum => {
                    let mut d = self.enum_decl();
                    d.attribs = attribs;
                    d.is_pub = is_pub;
                    p.enums.push(d);
                }
                Token::Trait => {
                    let d = self.trait_decl(is_pub);
                    p.traits.push(d);
                }
                Token::Impl => {
                    let d = self.impl_decl();
                    p.impls.push(d);
                }
                Token::Extern => {
                    self.next();
                    self.next();
                    self.expect(Token::LBrace);
                    while !self.eat(Token::RBrace) {
                        let mut f = self.signature();
                        self.expect(Token::Semicolon);
                        f.is_extern = true;
                        p.funcs.push(f);
                    }
                }
                other => panic!("unexpected {:?}", other),
            }
        }
        p
    }

    fn attributes(&mut self) -> Vec<Attribute> {
        let mut out = vec![];
        while self.is(Token::Pound) {
            let span = self.span();
            self.next();
            self.expect(Token::LBracket);
            let name = self.ident();
            let mut args = vec![];
            if self.eat(Token::LParen) {
                while !self.eat(Token::RParen) {
                    args.push(self.ident());
                    self.eat(Token::Comma);
                }
            }
            self.expect(Token::RBracket);
            out.push(Attribute { name, args, span });
        }
        out
    }

    fn generics(&mut self) -> Vec<GenericParam> {
        let mut out = vec![];
        if self.eat(Token::Lt) {
            while !self.eat(Token::Gt) {
                let name = self.ident();
                let mut bounds = vec![];
                if self.eat(Token::Colon) {
                    loop {
                        bounds.push(TraitBound { trait_name: self.ident(), generic_args: vec![] });
                        if !self.eat(Token::Plus) {
                            break;
                        }
                    }
                }
                out.push(GenericParam { name, bounds });
                self.eat(Token::Comma);
            }
        }
        out
    }

    fn signature(&mut self) -> Function {
        let span = self.span();
        self.expect(Token::Fn);
        let name = self.ident();
        let type_params = self.generics();
        let params = self.params();
        let return_type = if self.eat(Token::RArrow) { Some(self.ty()) } else { None };
        let is_method = params.first().map(|p| p.name == "self").unwrap_or(false);
        Function {
            name,
            params,
            return_type,
            type_params,
            body: Block { stmts: vec![], tail_expr: None, span },
            is_extern: false,
            is_intrinsic: false,
            is_method,
            is_pub: false,
            attribs: vec![],
            span,
        }
    }

    fn function(&mut self) -> Function {
        let mut f = self.signature();
        f.body = self.block();
        f
    }

    fn params(&mut self) -> Vec<Param> {
        self.expect(Token::LParen);
        let mut out = vec![];
        while !self.eat(Token::RParen) {
            let span = self.span();
            if self.eat(Token::Ellipsis) {
                continue;
            }
            if self.is(Token::Ampersand) {
                self.next();
                let is_mut = self.eat(Token::Mut);
                let name = self.ident();
                assert_eq!(name, "self");
                out.push(Param {
                    name,
                    ty: Type::Ref { inner: Box::new(Type::SelfType), is_mut },
                    span,
                });
            } else {
                let name = self.ident();
                let ty = if name == "self" && !self.is(Token::Colon) {
                    Type::SelfType
                } else {
                    self.expect(Token::Colon);
                    self.ty()
                };
                out.push(Param { name, ty, span });
            }
            self.eat(Token::Comma);
        }
        out
    }

    fn struct_decl(&mut self) -> StructDecl {
        let span = self.span();
        self.expect(Token::Struct);
        let name = self.ident();
        let type_params = self.generics();
        self.expect(Token::LBrace);
        let mut fields = vec![];
        while !self.eat(Token::RBrace) {
            let span = self.span();
            let is_pub = self.eat(Token::Pub);
            let name = self.ident();
            self.expect(Token::Colon);
            let ty = self.ty();
            fields.push(StructField { name, ty, is_pub, span });
            self.eat(Token::Comma);
        }
        StructDecl { name, fields, type_params, is_pub: false, attribs: vec![], span }
    }

    fn enum_decl(&mut self) -> EnumDecl {
        let span = self.span();
        self.expect(Token::Enum);
        let name = self.ident();
        let type_params = self.generics();
        self.expect(Token::LBrace);
        let mut variants = vec![];
        while !self.eat(Token::RBrace) {
            let span = self.span();
            let name = self.ident();
            let mut ty = None;
            if self.eat(Token::LParen) {
                ty = Some(self.ty());
                self.expect(Token::RParen);
            }
            variants.push(EnumVariant { name, ty, span });
            self.eat(Token::Comma);
        }
        EnumDecl { name, variants, type_params, is_pub: false, attribs: vec![], span }
    }

    fn trait_decl(&mut self, is_pub: bool) -> TraitDecl {
        let span = self.span();
        self.expect(Token::Trait);
        let name = self.ident();
        let type_params = self.generics();
        self.expect(Token::LBrace);
        let mut methods = vec![];
        while !self.eat(Token::RBrace) {
            let f = self.signature();
            let body = if self.eat(Token::Semicolon) { None } else { Some(self.block()) };
            methods.push(TraitMethodDef {
                name: f.name,
                params: f.params,
                return_type: f.return_type,
                body,
            });
        }
        TraitDecl { name, type_params, methods, consts: vec![], is_pub, span }
    }

    fn impl_decl(&mut self) -> ImplDecl {
        let span = self.span();
        self.expect(Token::Impl);
        let type_params = self.generics();
        let mut impl_type = self.ty();
        let mut trait_name = None;
        if self.eat(Token::For) {
            trait_name = match impl_type {
                Type::Struct(name) => Some(name),
                other => panic!("not a trait: {:?}", other),
            };
            impl_type = self.ty();
        }
        self.expect(Token::LBrace);
        let mut methods = vec![];
        let mut consts = vec![];
        while !self.eat(Token::RBrace) {
            let span = self.span();
            let is_pub = self.eat(Token::Pub);
            if self.eat(Token::Const) {
                let name = self.ident();
                self.expect(Token::Colon);
                let ty = self.ty();
                self.expect(Token::Eq);
                let value = self.expr();
                self.expect(Token::Semicolon);
                consts.push(AssociatedConst { name, ty, value, is_pub, span });
                continue;
            }
            let mut f = self.function();
            f.is_pub = is_pub;
            methods.push(f);
        }
        ImplDecl {
            impl_type,
            trait_name,
            trait_args: vec![],
            type_params,
            const_params: vec![],
            methods,
            consts,
            span,
        }
    }

    fn ty(&mut self) -> Type {
        match self.next() {
            Token::I8 => Type::I8,
            Token::I16 => Type::I16,
            Token::I32 => Type::I32,
            Token::I64 => Type::I64,
            Token::U8 => Type::U8,
            Token::U16 => Type::U16,
            Token::U32 => Type::U32,
            Token::U64 => Type::U64,
            Token::Usize => Type::Usize,
            Token::Isize => Type::Isize,
            Token::F32 => Type::F32,
            Token::F64 => Type::F64,
            Token::Bool => Type::Bool,
            Token::Bang => Type::Never,
            Token::Ampersand => {
                let is_mut = self.eat(Token::Mut);
                Type::Ref { inner: Box::new(self.ty()), is_mut }
            }
            Token::Star => {
                let is_mut = match self.next() {
                    Token::Mut => true,
                    Token::Const => false,
                    other => panic!("expected const or mut, found {:?}", other),
                };
                Type::Ptr { inner: Box::new(self.ty()), is_mut }
            }
            Token::LBracket => {
                let inner = Box::new(self.ty());
                let mut ty = Type::Slice { inner: inner.clone() };
                if self.eat(Token::Semicolon) {
                    match self.next() {
                        Token::IntLit(n) => ty = Type::Array { inner, len: n as usize },
                        other => panic!("expected a length, found {:?}", other),
                    }
                }
                self.expect(Token::RBracket);
                ty
            }
            Token::LParen => {
                let mut elems = vec![];
                while !self.eat(Token::RParen) {
                    elems.push(self.ty());
                    self.eat(Token::Comma);
                }
                if elems.is_empty() {
                    Type::Unit
                } else {
                    Type::Tuple(elems)
                }
            }
            Token::Str => Type::Str,
            Token::SelfType => Type::SelfType,
            Token::Ident(name) => {
                if self.eat(Token::Lt) {
                    let mut args = vec![];
                    while !self.eat(Token::Gt) {
                        args.push(self.ty());
                        self.eat(Token::Comma);
                    }
                    return Type::GenericInstance(name, args);
                }
                Type::Struct(name)
            }
            other => panic!("expected a type, found {:?}", other),
        }
    }

    fn block(&mut self) -> Block {
        let span = self.span();
        self.expect(Token::LBrace);
        let mut stmts = vec![];
        let mut tail_expr = None;
        while !self.eat(Token::RBrace) {
            let span = self.span();
            match self.peek().clone() {
                Token::Let => {
                    self.next();
                    let is_mut = self.eat(Token::Mut);
                    let pattern = self.pattern();
                    let type_ann = if self.eat(Token::Colon) { Some(self.ty()) } else { None };
                    self.expect(Token::Eq);
                    let init = self.expr();
                    let else_block = if self.eat(Token::Else) { Some(self.block()) } else { None };
                    self.expect(Token::Semicolon);
                    stmts.push(Stmt::Let { pattern, is_mut, type_ann, init, else_block, span });
                }
                Token::Const => {
                    self.next();
                    let name = self.ident();
                    let type_ann = if self.eat(Token::Colon) { Some(self.ty()) } else { None };
                    self.expect(Token::Eq);
                    let init = self.expr();
                    self.expect(Token::Semicolon);
                    stmts.push(Stmt::Const { name, type_ann, init, span });
                }
                Token::Return => {
                    self.next();
                    let value =
                        if self.is(Token::Semicolon) { None } else { Some(Box::new(self.expr())) };
                    self.expect(Token::Semicolon);
                    stmts.push(Stmt::Return { value, span });
                }
                Token::Ident(word) if word == "break" => {
                    self.next();
                    let value =
                        if self.is(Token::Semicolon) { None } else { Some(Box::new(self.expr())) };
                    self.expect(Token::Semicolon);
                    stmts.push(Stmt::Break { value, span });
                }
                Token::Ident(word) if word == "continue" => {
                    self.next();
                    self.expect(Token::Semicolon);
                    stmts.push(Stmt::Continue { span });
                }
                _ => {
                    let e = self.expr();
                    if self.eat(Token::Semicolon) {
                        stmts.push(Stmt::Expr(e));
                    } else if self.is(Token::RBrace) {
                        tail_expr = Some(Box::new(e));
                    } else {
                        stmts.push(Stmt::Expr(e));
                    }
                }
            }
        }
        Block { stmts, tail_expr, span }
    }

    fn pattern(&mut self) -> Pattern {
        match self.next() {
            Token::IntLit(n) => Pattern::IntLit(n),
            Token::True => Pattern::BoolLit(true),
            Token::False => Pattern::BoolLit(false),
            Token::Underscore => Pattern::Wildcard,
            Token::Ident(name) => {
                let mut enum_name = None;
                let mut variant = name.clone();
                if self.eat(Token::DoubleColon) {
                    enum_name = Some(name.clone());
                    variant = self.ident();
                }
                let mut payload = None;
                if self.eat(Token::LParen) {
                    payload = Some(Box::new(self.pattern()));
                    self.expect(Token::RParen);
                }
                if enum_name.is_none() && payload.is_none() && !starts_upper(&name) {
                    return Pattern::Binding(name);
                }
                Pattern::EnumVariant { enum_name, variant, payload }
            }
            other => panic!("expected a pattern, found {:?}", other),
        }
    }

    fn expr(&mut self) -> Expr {
        let span = self.span();
        let target = self.binary(0, true);
        if self.eat(Token::Eq) {
            let value = self.expr();
            return Expr::Assign { target: Box::new(target), value: Box::new(value), span };
        }
        target
    }

    fn condition(&mut self) -> Expr {
        self.binary(0, false)
    }

    fn binary(&mut self, min: u32, structs: bool) -> Expr {
        let span = self.span();
        let mut lhs = self.cast(structs);
        loop {
            let (op, level) = match self.peek() {
                Token::OrOr => (BinOp::Or, 1),
                Token::AndAnd => (BinOp::And, 2),
                Token::EqEq => (BinOp::Eq, 3),
                Token::BangEq => (BinOp::Neq, 3),
                Token::Lt => (BinOp::Lt, 3),
                Token::Gt => (BinOp::Gt, 3),
                Token::Le => (BinOp::Le, 3),
                Token::Ge => (BinOp::Ge, 3),
                Token::Plus => (BinOp::Add, 4),
                Token::Minus => (BinOp::Sub, 4),
                Token::Star => (BinOp::Mul, 5),
                Token::Slash => (BinOp::Div, 5),
                _ => break,
            };
            if level <= min {
                break;
            }
            self.next();
            let rhs = self.binary(level, structs);
            lhs = Expr::Binary { op, lhs: Box::new(lhs), rhs: Box::new(rhs), span };
        }
        lhs
    }

    fn cast(&mut self, structs: bool) -> Expr {
        let span = self.span();
        let mut e = self.unary(structs);
        while self.eat(Token::As) {
            let to_type = self.ty();
            e = Expr::Cast { expr: Box::new(e), to_type, span };
        }
        e
    }

    fn unary(&mut self, structs: bool) -> Expr {
        let span = self.span();
        match self.peek() {
            Token::Bang => {
                self.next();
                Expr::UnaryNot(Box::new(self.unary(structs)), span)
            }
            Token::Minus => {
                self.next();
                Expr::UnaryMinus(Box::new(self.unary(structs)), span)
            }
            Token::Star => {
                self.next();
                Expr::Deref(Box::new(self.unary(structs)), span)
            }
            Token::Ampersand => {
                self.next();
                let is_mut = self.eat(Token::Mut);
                Expr::Ref { expr: Box::new(self.unary(structs)), is_mut, span }
            }
            _ => self.postfix(structs),
        }
    }

    fn args(&mut self) -> Vec<Expr> {
        self.expect(Token::LParen);
        let mut out = vec![];
        while !self.eat(Token::RParen) {
            out.push(self.expr());
            self.eat(Token::Comma);
        }
        out
    }

    fn postfix(&mut self, structs: bool) -> Expr {
        let span = self.span();
        let mut e = self.primary(structs);
        loop {
            if self.eat(Token::Dot) {
                match self.next() {
                    Token::IntLit(n) => {
                        e = Expr::Member {
                            expr: Box::new(e),
                            index: n as usize,
                            field: None,
                            span,
                        };
                    }
                    Token::Ident(name) => {
                        if self.is(Token::LParen) {
                            let args = self.args();
                            e = Expr::MethodCall {
                                expr: Box::new(e),
                                method: name,
                                args,
                                type_args: vec![],
                                span,
                            };
                        } else {
                            e = Expr::Member {
                                expr: Box::new(e),
                                index: usize::MAX,
                                field: Some(name),
                                span,
                            };
                        }
                    }
                    other => panic!("expected a member, found {:?}", other),
                }
            } else if self.is(Token::LBracket) {
                self.next();
                let index = Box::new(self.expr());
                self.expect(Token::RBracket);
                e = Expr::Index { array: Box::new(e), index, span };
            } else {
                return e;
            }
        }
    }

    fn primary(&mut self, structs: bool) -> Expr {
        let span = self.span();
        if matches!(self.peek_at(1), Token::DoubleColon) {
            let module = match self.next() {
                Token::Ident(name) => name,
                Token::SelfType => "Self".to_string(),
                Token::I32 => "i32".to_string(),
                Token::I64 => "i64".to_string(),
                Token::Bool => "bool".to_string(),
                Token::F64 => "f64".to_string(),
                other => panic!("unexpected path {:?}", other),
            };
            self.next();
            let callee = self.ident();
            if starts_upper(&callee) {
                let payload = if self.is(Token::LParen) {
                    self.args().into_iter().next().map(Box::new)
                } else {
                    None
                };
                return Expr::EnumLit { enum_name: module, variant: callee, payload, span };
            }
            let args = self.args();
            return Expr::QualifiedCall { module, callee, args, type_args: vec![], span };
        }
        match self.next() {
            Token::IntLit(n) => Expr::IntLit(n, span),
            Token::FloatLit(digits) => Expr::FloatLit(digits, span),
            Token::StrLit(text) => Expr::StrLit(text, span),
            Token::IntSuffixLit(n, suffix) => Expr::Cast {
                expr: Box::new(Expr::IntLit(n, span)),
                to_type: suffix_type(&suffix),
                span,
            },
            Token::FloatSuffixLit(digits, suffix) => Expr::Cast {
                expr: Box::new(Expr::FloatLit(digits, span)),
                to_type: suffix_type(&suffix),
                span,
            },
            Token::Self_ => Expr::Ident("self".to_string(), span),
            Token::True => Expr::BoolLit(true, span),
            Token::False => Expr::BoolLit(false, span),
            Token::LParen => {
                if self.eat(Token::RParen) {
                    return Expr::Unit(span);
                }
                let first = self.expr();
                if self.eat(Token::RParen) {
                    return first;
                }
                let mut elems = vec![first];
                while !self.eat(Token::RParen) {
                    self.eat(Token::Comma);
                    if !self.is(Token::RParen) {
                        elems.push(self.expr());
                    }
                }
                Expr::Tuple(elems, span)
            }
            Token::LBracket => {
                let mut elems = vec![];
                while !self.eat(Token::RBracket) {
                    elems.push(self.expr());
                    if self.eat(Token::Semicolon) {
                        let count = match self.next() {
                            Token::IntLit(n) => n as usize,
                            other => panic!("expected a count, found {:?}", other),
                        };
                        self.expect(Token::RBracket);
                        let e = elems.remove(0);
                        return Expr::Repeat(Box::new(e), count, span);
                    }
                    self.eat(Token::Comma);
                }
                Expr::Array(elems, span)
            }
            Token::LBrace => {
                self.at -= 1;
                let b = self.block();
                Expr::Block(b, span)
            }
            Token::If => {
                if self.eat(Token::Let) {
                    let pattern = self.pattern();
                    self.expect(Token::Eq);
                    let scrutinee = Box::new(self.condition());
                    let then_block = self.block();
                    let else_block = if self.eat(Token::Else) { Some(self.block()) } else { None };
                    return Expr::IfLet { pattern, scrutinee, then_block, else_block, span };
                }
                let cond = Box::new(self.condition());
                let then_block = self.block();
                let mut else_ifs = vec![];
                let mut else_block = None;
                while self.eat(Token::Else) {
                    if self.eat(Token::If) {
                        let c = self.condition();
                        let b = self.block();
                        else_ifs.push((c, b));
                    } else {
                        else_block = Some(self.block());
                        break;
                    }
                }
                Expr::If { cond, then_block, else_ifs, else_block, span }
            }
            Token::Loop => {
                let body = self.block();
                Expr::Loop { body, span }
            }
            Token::While => {
                let cond = Box::new(self.condition());
                let body = self.block();
                Expr::While { cond, body, span }
            }
            Token::For => {
                let pattern = self.pattern();
                self.expect(Token::In);
                let container = Box::new(self.condition());
                let body = self.block();
                Expr::For { pattern, container, body, span }
            }
            Token::Match => {
                let scrutinee = Box::new(self.condition());
                self.expect(Token::LBrace);
                let mut arms = vec![];
                while !self.eat(Token::RBrace) {
                    let pattern = self.pattern();
                    let guard = if self.eat(Token::If) { Some(Box::new(self.condition())) } else { None };
                    self.expect(Token::FatArrow);
                    let e = self.expr();
                    let body = match e {
                        Expr::Block(b, _) => b,
                        other => Block { stmts: vec![], tail_expr: Some(Box::new(other)), span },
                    };
                    arms.push(MatchArm { pattern, guard, body });
                    self.eat(Token::Comma);
                }
                Expr::Match { scrutinee, arms, span }
            }
            Token::Ident(name) => {
                if self.is(Token::LParen) {
                    let args = self.args();
                    return Expr::Call { callee: name, args, type_args: vec![], span };
                }
                if structs && starts_upper(&name) && self.is(Token::LBrace) {
                    self.next();
                    let mut fields = vec![];
                    while !self.eat(Token::RBrace) {
                        let field = self.ident();
                        self.expect(Token::Colon);
                        let value = self.expr();
                        fields.push((field, value));
                        self.eat(Token::Comma);
                    }
                    return Expr::StructLit { struct_name: name, fields, span };
                }
                Expr::Ident(name, span)
            }
            other => panic!("expected an expression, found {:?}", other),
        }
    }
}

fn starts_upper(name: &str) -> bool {
    name.chars().next().map(|c| c.is_uppercase()).unwrap_or(false)
}

fn suffix_type(t: &Token) -> Type {
    match t {
        Token::I8 => Type::I8,
        Token::I16 => Type::I16,
        Token::I32 => Type::I32,
        Token::I64 => Type::I64,
        Token::U8 => Type::U8,
        Token::U16 => Type::U16,
        Token::U32 => Type::U32,
        Token::U64 => Type::U64,
        Token::Usize => Type::Usize,
        Token::Isize => Type::Isize,
        Token::F32 => Type::F32,
        _ => Type::F64,
    }
}

fn compiled(src: &str) -> Result<CodeGen, CodegenError> {
    let program = Parser::new(src).program();
    let mut cg = CodeGen::new_native(src.to_string(), "<test>".to_string());
    cg.compile_module(&program)?;
    Ok(cg)
}

fn compile_only(src: &str) -> Result<(), CodegenError> {
    compiled(src).map(|_| ())
}

/// What `main` returns.
fn jit(src: &str) -> Result<i64, CodegenError> {
    let text = compiled(src)?.emit_ir()?;
    let context = Context::create();
    let buffer = MemoryBuffer::create_from_memory_range_copy(text.as_bytes(), "test");
    let module = context.create_module_from_ir(buffer).unwrap();
    if let Err(message) = module.verify() {
        panic!("{}\n{}", message.to_string(), text);
    }
    Target::initialize_native(&InitializationConfig::default()).unwrap();
    let triple = TargetMachine::get_default_triple();
    let target = Target::from_triple(&triple).unwrap();
    let machine = target
        .create_target_machine(
            &triple,
            "",
            "",
            OptimizationLevel::Default,
            RelocMode::Default,
            CodeModel::Default,
        )
        .unwrap();
    for _ in 0..2 {
        module.run_passes("default<O2>", &machine, PassBuilderOptions::create()).unwrap();
    }
    let printed = module.print_to_string().to_string();
    let main = printed.split("@main(").nth(1).expect("no main");
    let main = main.split("\n}").next().unwrap();
    let ret = main.rsplit("  ret ").next().unwrap();
    let value = ret.split_whitespace().nth(1).unwrap_or("void").to_string();
    match value.parse::<i64>() {
        Ok(n) => Ok(n),
        Err(_) => panic!("main returns no constant: {}", printed),
    }
}

#[test]
fn test_jit_empty_function() {
    assert_eq!(jit("fn main() {}").unwrap(), 0);
}

#[test]
fn test_jit_never_type_coercion() {
    let src = "
        fn my_panic() -> ! {
            loop {}
        }
        fn main() -> i32 {
            let x: i32 = my_panic();
            x
        }
    ";
    assert!(compile_only(src).is_ok());
}

#[test]
fn test_jit_never_type_coercion_in_if() {
    let src = "
        fn my_panic() -> ! {
            loop {}
        }
        fn main() -> i32 {
            let x = if true {
                42
            } else {
                my_panic()
            };
            x
        }
    ";
    assert_eq!(jit(src).unwrap(), 42);
}

#[test]
fn test_jit_never_type_coercion_to_struct() {
    let src = "
        struct Point { x: i32, y: i32 }
        fn my_panic() -> ! {
            loop {}
        }
        fn main() {
            let p: Point = my_panic();
        }
    ";
    assert!(compile_only(src).is_ok());
}

#[test]
fn test_jit_with_let() {
    assert_eq!(jit("fn main() { let x = 42; }").unwrap(), 0);
}

#[test]
fn test_jit_arithmetic() {
    assert_eq!(jit("fn main() { 1+2*3; }").unwrap(), 0);
}

#[test]
fn test_jit_logical_and_tt() {
    assert_eq!(
        jit("fn main() -> i32 { (true && true) as i32 }").unwrap(),
        1
    );
}

#[test]
fn test_jit_logical_and_tf() {
    assert_eq!(
        jit("fn main() -> i32 { (true && false) as i32 }").unwrap(),
        0
    );
}

#[test]
fn test_jit_logical_and_ft() {
    assert_eq!(
        jit("fn main() -> i32 { (false && true) as i32 }").unwrap(),
        0
    );
}

#[test]
fn test_jit_logical_and_ff() {
    assert_eq!(
        jit("fn main() -> i32 { (false && false) as i32 }").unwrap(),
        0
    );
}

#[test]
fn test_jit_logical_and_ints_t() {
    assert_eq!(jit("fn main() -> i32 { (1 && 2) as i32 }").unwrap(), 1);
}

#[test]
fn test_jit_logical_and_ints_f() {
    assert_eq!(jit("fn main() -> i32 { (0 && 2) as i32 }").unwrap(), 0);
}

#[test]
fn test_jit_logical_or_tt() {
    assert_eq!(
        jit("fn main() -> i32 { (true || true) as i32 }").unwrap(),
        1
    );
}

#[test]
fn test_jit_logical_or_tf() {
    assert_eq!(
        jit("fn main() -> i32 { (true || false) as i32 }").unwrap(),
        1
    );
}

#[test]
fn test_jit_logical_or_ft() {
    assert_eq!(
        jit("fn main() -> i32 { (false || true) as i32 }").unwrap(),
        1
    );
}

#[test]
fn test_jit_logical_or_ff() {
    assert_eq!(
        jit("fn main() -> i32 { (false || false) as i32 }").unwrap(),
        0
    );
}

#[test]
fn test_jit_logical_or_ints_t() {
    assert_eq!(jit("fn main() -> i32 { (0 || 2) as i32 }").unwrap(), 1);
}

#[test]
fn test_jit_logical_or_ints_f() {
    assert_eq!(jit("fn main() -> i32 { (0 || 0) as i32 }").unwrap(), 0);
}

#[test]
fn test_jit_logical_short_circuit_and() {
    // AND short-circuiting: false && mutate(...) => mutate should not run
    let src_and = "
        fn mutate(ptr: *mut i32) -> bool {
            *ptr = 42;
            true
        }
        fn main() -> i32 {
            let mut x = 0;
            let res = false && mutate(&mut x);
            x
        }
    ";
    assert_eq!(jit(src_and).unwrap(), 0);
}

#[test]
fn test_jit_logical_short_circuit_or() {
    // OR short-circuiting: true || mutate(...) => mutate should not run
    let src_or = "
        fn mutate(ptr: *mut i32) -> bool {
            *ptr = 42;
            true
        }
        fn main() -> i32 {
            let mut x = 0;
            let res = true || mutate(&mut x);
            x
        }
    ";
    assert_eq!(jit(src_or).unwrap(), 0);
}

#[test]
fn test_jit_undefined_var() {
    let result = jit("fn main() { x; }");
    assert!(result.is_err());
    assert!(
        result.unwrap_err().msg.contains("undefined variable"),
        "error should mention undefined variable"
    );
}

#[test]
fn test_jit_unknown_function() {
    let result = jit("fn main() { foo(1); }");
    assert!(result.is_err());
    assert!(
        result.unwrap_err().msg.contains("unknown function"),
        "error should mention unknown function"
    );
}

#[test]
fn test_jit_two_functions() {
    assert_eq!(jit("fn a(){} fn main(){}").unwrap(), 0);
}

#[test]
fn test_compile_module_valid() {
    let src = "fn f() { let x = 1+2; }";
    let program = Parser::new(src).program();
    let mut cg = CodeGen::new_native(src.to_string(), "<test>".to_string());
    assert!(cg.compile_module(&program).is_ok());
}

#[test]
fn test_jit_multiple_statements() {
    assert_eq!(
        jit("fn main() { let x = 10; let y = 20; x + y; }").unwrap(),
        0
    );
}

#[test]
fn test_jit_printf_extern() {
    assert_eq!(
        jit(
            r#"extern "C" { fn printf(fmt: *const i8, ...) -> i32; } fn main() { printf("%d".0, 42); }"#
        )
        .unwrap(),
        0
    );
}

#[test]
fn test_jit_mutable_var_assignment() {
    assert_eq!(jit("fn main() { let mut x = 10; x = 20; }").unwrap(), 0);
}

#[test]
fn test_jit_immutable_var_cannot_assign() {
    let result = jit("fn main() { let x = 10; x = 20; }");
    assert!(result.is_err());
    assert!(
        result
            .unwrap_err()
            .msg
            .contains("cannot assign to immutable"),
        "error should mention cannot assign to immutable"
    );
}

#[test]
fn test_jit_assign_undefined_var() {
    let result = jit("fn main() { x = 10; }");
    assert!(result.is_err());
    assert!(
        result.unwrap_err().msg.contains("undefined variable"),
        "error should mention undefined variable"
    );
}

#[test]
fn test_jit_const_declaration() {
    assert_eq!(jit("fn main() { const X = 42; }").unwrap(), 0);
}

#[test]
fn test_jit_const_use() {
    let result = jit("fn main() { const X = 42; let y = X; }");
    assert!(
        result.is_ok(),
        "using const in expression failed: {:?}",
        result
    );
}

#[test]
fn test_jit_const_in_arithmetic() {
    let result = jit("fn main() { const BASE = 10; const SUM = BASE + 5; let x = SUM; }");
    assert!(result.is_ok(), "const arithmetic failed: {:?}", result);
}

#[test]
fn test_jit_cannot_assign_to_const() {
    let result = jit("fn main() { const X = 42; X = 99; }");
    assert!(result.is_err());
    let err = result.unwrap_err();
    assert!(
        err.msg.contains("cannot assign to constant"),
        "error should mention 'cannot assign to constant': {}",
        err.msg
    );
}

#[test]
fn test_jit_mutable_var_reassign_and_read() {
    assert_eq!(jit("fn main() { let mut x = 5; x = x + 1; }").unwrap(), 0);
}

#[test]
fn test_jit_multiple_mutable_vars() {
    assert_eq!(
        jit("fn main() { let mut a = 1; let mut b = 2; a = 3; b = a; }").unwrap(),
        0
    );
}

#[test]
fn test_jit_assignment_inside_let_init() {
    let result = jit("fn main() { let mut x = 0; let y = x = 5; }");
    assert!(result.is_ok(), "assignment in let init: {:?}", result);
}

#[test]
fn test_compile_module_const() {
    let src = "fn f() { const X = 42; }";
    let program = Parser::new(src).program();
    let mut cg = CodeGen::new_native(src.to_string(), "<test>".to_string());
    assert!(cg.compile_module(&program).is_ok());
}

#[test]
fn test_jit_typed_let() {
    assert_eq!(jit("fn main() { let x: i32 = 42; }").unwrap(), 0);
}

#[test]
fn test_jit_float_literal() {
    assert_eq!(jit("fn main() { let x: f64 = 3.14; }").unwrap(), 0);
}

#[test]
fn test_jit_cast_int_to_i64() {
    assert_eq!(jit("fn main() { let x: i64 = 42 as i64; }").unwrap(), 0);
}

#[test]
fn test_jit_cast_int_to_u8() {
    assert_eq!(jit("fn main() { let x: u8 = 300 as u8; }").unwrap(), 0);
}

#[test]
fn test_jit_chain_cast() {
    assert_eq!(
        jit("fn main() { let x: u8 = 42 as i64 as u8; }").unwrap(),
        0
    );
}

#[test]
fn test_jit_float_add_as_i32() {
    assert_eq!(
        jit("fn main() { let x: i32 = (3.14 as i32) + 1; }").unwrap(),
        0
    );
}

#[test]
fn test_jit_u8_type() {
    assert_eq!(jit("fn main() { let x: u8 = 200; }").unwrap(), 0);
}

#[test]
fn test_jit_i16_type() {
    assert_eq!(jit("fn main() { let x: i16 = 42; }").unwrap(), 0);
}

#[test]
fn test_jit_u64_type() {
    assert_eq!(jit("fn main() { let x: u64 = 42; }").unwrap(), 0);
}

#[test]
fn test_jit_f32_type() {
    assert_eq!(jit("fn main() { let x: f32 = 1.5; }").unwrap(), 0);
}

#[test]
fn test_jit_float_to_int_cast() {
    assert_eq!(jit("fn main() { let x: i32 = 3.99 as i32; }").unwrap(), 0);
}

#[test]
fn test_jit_int_to_f64_cast() {
    assert_eq!(jit("fn main() { let x: f64 = 42 as f64; }").unwrap(), 0);
}

#[test]
fn test_jit_usize_type() {
    assert_eq!(jit("fn main() { let x: usize = 42; }").unwrap(), 0);
}

#[test]
fn test_jit_isize_type() {
    assert_eq!(jit("fn main() { let x: isize = 42; }").unwrap(), 0);
}

#[test]
fn test_jit_suffix_int_i32() {
    assert_eq!(jit("fn main() { let x = 42i32; }").unwrap(), 0);
}

#[test]
fn test_jit_suffix_int_u8() {
    assert_eq!(jit("fn main() { let x = 255u8; }").unwrap(), 0);
}

#[test]
fn test_jit_suffix_int_i64() {
    assert_eq!(jit("fn main() { let x = 1000i64; }").unwrap(), 0);
}

#[test]
fn test_jit_suffix_float_f64() {
    assert_eq!(jit("fn main() { let x = 3.14f64; }").unwrap(), 0);
}

#[test]
fn test_jit_suffix_float_f32() {
    assert_eq!(jit("fn main() { let x = 1.5f32; }").unwrap(), 0);
}

#[test]
fn test_jit_suffix_in_arithmetic() {
    assert_eq!(jit("fn main() { let x = 10i64 + 20i32; }").unwrap(), 0);
}

#[test]
fn test_jit_string_literal() {
    assert_eq!(
        jit(r#"extern "C" { fn printf(fmt: *const i8, ...) -> i32; } fn main() { printf("%s".0, "hello".0); }"#)
            .unwrap(),
        0
    );
}

#[test]
fn test_compile_module_typed() {
    let src = "fn f() { let x: f64 = 3.14; }";
    let program = Parser::new(src).program();
    let mut cg = CodeGen::new_native(src.to_string(), "<test>".to_string());
    assert!(cg.compile_module(&program).is_ok());
}

#[test]
fn test_jit_ref_deref_i32() {
    assert_eq!(
        jit("fn main() { let x = 42; let r = &x; let v = *r; }").unwrap(),
        0
    );
}

#[test]
fn test_jit_mut_ref_deref_assign() {
    assert_eq!(
        jit("fn main() { let mut x = 10; let r = &mut x; *r = 20; }").unwrap(),
        0
    );
}

#[test]
fn test_jit_ref_to_temp_expr() {
    assert_eq!(jit("fn main() { let r = &(1+2); let v = *r; }").unwrap(), 0);
}

#[test]
fn test_jit_deref_assign_through_mut_ref() {
    let result = jit("fn main() { let mut x = 5; let r = &mut x; *r = *r + 1; }");
    assert!(
        result.is_ok(),
        "deref assign through mut ref failed: {:?}",
        result
    );
}

#[test]
fn test_jit_str_literal_type() {
    // String literals compile successfully as &str
    assert_eq!(
        jit(r#"extern "C" { fn printf(fmt: *const i8, ...) -> i32; } fn main() { printf("%s".0, "hello".0); }"#)
            .unwrap(),
        0
    );
}

#[test]
fn test_jit_str_len_literal() {
    // "hello".len() should compile and execute
    assert!(jit("fn main() { \"hello\".len(); }").is_ok());
}

#[test]
fn test_jit_str_len_variable() {
    assert!(jit("fn main() { let s = \"hello\"; s.len(); }").is_ok());
}

#[test]
fn test_jit_struct_create() {
    assert_eq!(
        jit("struct Point { x: i32, y: i32, }\nfn main() { let p = Point { x: 10, y: 20 }; }")
            .unwrap(),
        0
    );
}

#[test]
fn test_jit_struct_method_call() {
    assert_eq!(
        jit(
            "struct Point { x: i32, y: i32, }\nimpl Point {\n    fn new(x: i32, y: i32) -> Point { Point { x: x, y: y }; }\n    fn area(&self) -> i32 { self.x * self.y; }\n}\nfn main() {\n    let p = Point { x: 3, y: 4 };\n    p.area();\n}\n"
        )
        .unwrap(),
        0
    );
}

#[test]
fn test_jit_option_pattern_matching() {
    assert_eq!(
        jit("
            enum Option<T> { Some(T), None, }
            impl<T> Option<T> {
                fn unwrap_or(&self, default: T) -> T {
                    match *self {
                        Option::Some(val) => val,
                        Option::None => default,
                    }
                }
            }
            fn main() -> i32 {
                let opt = Option::Some(42);
                opt.unwrap_or(0)
            }
        ")
        .unwrap(),
        42
    );
    assert_eq!(
        jit("
            enum Option<T> { Some(T), None, }
            impl<T> Option<T> {
                fn unwrap_or(&self, default: T) -> T {
                    match *self {
                        Option::Some(val) => val,
                        Option::None => default,
                    }
                }
            }
            fn main() -> i32 {
                let opt: Option<i32> = Option::None;
                opt.unwrap_or(42)
            }
        ")
        .unwrap(),
        42
    );
}

#[test]
fn test_jit_result_pattern_matching() {
    assert_eq!(
        jit("
            enum Result<T, E> { Ok(T), Err(E), }
            impl<T, E> Result<T, E> {
                fn is_ok(&self) -> bool {
                    match *self {
                        Result::Ok(_) => true,
                        Result::Err(_) => false,
                    }
                }
            }
            fn main() -> i32 {
                let res: Result<i32, i32> = Result::Ok(100);
                if res.is_ok() { 42 } else { 0 }
            }
        ")
        .unwrap(),
        42
    );
}

#[test]
fn test_jit_builtin_default() {
    assert_eq!(jit("fn main() { i32::default(); }").unwrap(), 0);
}

#[test]
fn test_jit_static_method() {
    assert_eq!(
        jit("fn main() { let x: i32 = i32::default(); }").unwrap(),
        0
    );
}

#[test]
fn test_jit_builtin_clone() {
    assert_eq!(
        jit("fn main() { let x: i32 = 42; let y: i32 = x.clone(); }").unwrap(),
        0
    );
}

#[test]
fn test_jit_builtin_eq() {
    assert_eq!(
        jit("fn main() { let a: i32 = 42; let b: i32 = 42; a.eq(&b); }").unwrap(),
        0
    );
}

#[test]
fn test_jit_builtin_ne() {
    assert_eq!(
        jit("fn main() { let a: i32 = 42; let b: i32 = 43; a.ne(&b); }").unwrap(),
        0
    );
}

#[test]
fn test_jit_builtin_cmp() {
    assert_eq!(
        jit("fn main() { let a: i32 = 42; let b: i32 = 43; a.cmp(&b); }").unwrap(),
        0
    );
}

#[test]
fn test_jit_builtin_cmp_partial_cmp_removed() {
    // partial_cmp was removed, but cmp still works
}

#[test]
fn test_jit_derive_default() {
    assert_eq!(
        jit(
            "#[derive(Default)]\nstruct Point { x: i32, y: i32, }\nfn main() { let p = Point { x: 10, y: 20 }; p.default(); }"
        )
        .unwrap(),
        0
    );
}

#[test]
fn test_jit_derive_clone() {
    assert_eq!(
        jit(
            "#[derive(Clone)]\nstruct Point { x: i32, y: i32, }\nfn main() { let p = Point { x: 10, y: 20 }; let c = p.clone(); }"
        )
        .unwrap(),
        0
    );
}

#[test]
fn test_jit_derive_eq() {
    assert_eq!(
        jit(
            "#[derive(Eq)]\nstruct Point { x: i32, y: i32, }\nfn main() { let a = Point { x: 10, y: 20 }; let b = Point { x: 10, y: 20 }; let r = a.eq(&b); }"
        )
        .unwrap(),
        0
    );
    assert_eq!(
        jit(
            "#[derive(Eq)]\nstruct Point { x: i32, y: i32, }\nfn main() { let a = Point { x: 10, y: 20 }; let b = Point { x: 99, y: 20 }; let r = a.ne(&b); }"
        )
        .unwrap(),
        0
    );
}

#[test]
fn test_jit_derive_ord() {
    assert_eq!(
        jit(
            "#[derive(Ord)]\nstruct Point { x: i32, y: i32, }\nfn main() { let a = Point { x: 10, y: 20 }; let b = Point { x: 5, y: 30 }; let r = a.cmp(&b); }"
        )
        .unwrap(),
        0
    );
}

#[test]
fn test_jit_derive_multi_trait() {
    assert_eq!(
        jit(
            "#[derive(Default, Clone, Eq)]\nstruct Point { x: i32, y: i32, }\nfn main() { let p = Point { x: 10, y: 20 }; let c = p.clone(); c.eq(&p); }"
        )
        .unwrap(),
        0
    );
}

#[test]
fn test_jit_derive_default_zeroed() {
    let result = jit(
        "#[derive(Default)]\nstruct Point { x: i32, y: i32, }\nfn main() { let p = Point { x: 10, y: 20 }; p.default(); }",
    );
    assert!(result.is_ok());
}

#[test]
fn test_jit_derive_non_default_field_fails() {
    // Testing that it errors at compile time.
    // We need to check the error message too.
    let result = jit(
        "struct NonDefault { x: i32, }\n#[derive(Default)]\nstruct Wrapper { f: NonDefault, }\nfn main() {}",
    );
    assert!(result.is_err());
    assert!(
        result
            .unwrap_err()
            .msg
            .contains("does not implement Default"),
        "error should mention field doesn't implement Default"
    );
}

#[test]
fn test_jit_bool_decl() {
    assert_eq!(
        jit("fn main() { let x: bool = true; let y: bool = false; }").unwrap(),
        0
    );
}

#[test]
fn test_jit_bool_eq() {
    assert_eq!(
        jit("fn main() { let a: bool = true; let b: bool = true; a.eq(&b); }").unwrap(),
        0
    );
}

#[test]
fn test_jit_bool_ne() {
    assert_eq!(
        jit("fn main() { let a: bool = true; let b: bool = false; a.ne(&b); }").unwrap(),
        0
    );
}

#[test]
fn test_jit_bool_cmp() {
    assert_eq!(
        jit("fn main() { let a: bool = true; let b: bool = false; a.cmp(&b); }").unwrap(),
        0
    );
}

#[test]
fn test_jit_bool_default() {
    assert_eq!(
        jit("fn main() { let x: bool = true; x.default(); }").unwrap(),
        0
    );
}

#[test]
fn test_jit_bool_clone() {
    assert_eq!(
        jit("fn main() { let x: bool = true; let y: bool = x.clone(); }").unwrap(),
        0
    );
}

#[test]
fn test_jit_i32_eq_returns_bool() {
    assert_eq!(
        jit("fn main() { let a: i32 = 42; let b: i32 = 42; a.eq(&b); }").unwrap(),
        0
    );
    assert_eq!(
        jit("fn main() { let a: i32 = 42; let b: i32 = 43; a.ne(&b); }").unwrap(),
        0
    );
}

#[test]
fn test_jit_bool_in_struct() {
    assert_eq!(
        jit(
            "#[derive(Eq)]\nstruct Pair { a: bool, b: bool, }\nfn main() { let p = Pair { a: true, b: false }; let q = Pair { a: true, b: false }; p.eq(&q); }"
        )
        .unwrap(),
        0
    );
}

#[test]
fn test_jit_bool_cast_to_i32() {
    assert_eq!(jit("fn main() { let x: i32 = true as i32; }").unwrap(), 0);
}

#[test]
fn test_jit_i32_cast_to_bool() {
    assert_eq!(jit("fn main() { let x: bool = 1 as bool; }").unwrap(), 0);
}

#[test]
fn test_jit_comparison_eq() {
    assert_eq!(jit("fn main() { 1 == 1; }").unwrap(), 0);
}

#[test]
fn test_jit_comparison_neq() {
    assert_eq!(jit("fn main() { 1 != 2; }").unwrap(), 0);
}

#[test]
fn test_jit_comparison_lt() {
    assert_eq!(jit("fn main() { 1 < 2; }").unwrap(), 0);
}

#[test]
fn test_jit_comparison_gt() {
    assert_eq!(jit("fn main() { 2 > 1; }").unwrap(), 0);
}

#[test]
fn test_jit_comparison_le() {
    assert_eq!(jit("fn main() { 1 <= 2; }").unwrap(), 0);
}

#[test]
fn test_jit_comparison_ge() {
    assert_eq!(jit("fn main() { 2 >= 2; }").unwrap(), 0);
}

#[test]
fn test_jit_if_as_stmt() {
    assert_eq!(jit("fn main() { if true { 2 } else { 3 }; }").unwrap(), 0);
}

#[test]
fn test_jit_if_else_as_stmt() {
    // if as expression statement with ; — result discarded, main returns 0
    assert_eq!(jit("fn main() { if false { 2 } else { 3 }; }").unwrap(), 0);
}

#[test]
fn test_jit_if_else_as_tail_expr() {
    assert_eq!(jit("fn main() { if false { 2 } else { 3 } }").unwrap(), 3);
}

#[test]
fn test_jit_if_else_if() {
    // if as expression statement with ;
    assert_eq!(
        jit("fn main() { if false { 1 } else if true { 2 } else { 3 }; }").unwrap(),
        0
    );
}

#[test]
fn test_jit_loop_infinite() {
    // loop with return to escape
    assert_eq!(jit("fn main() { loop { break 42; } }").unwrap(), 42);
}

#[test]
fn test_jit_while_as_stmt() {
    assert_eq!(jit("fn main() { while false { 1 } }").unwrap(), 0);
}

#[test]
fn test_jit_explicit_return() {
    assert_eq!(jit("fn main() -> i32 { return 42; }").unwrap(), 42);
}

#[test]
fn test_jit_implicit_return() {
    assert_eq!(jit("fn main() -> i32 { 42 }").unwrap(), 42);
}

#[test]
fn test_jit_return_in_if() {
    assert_eq!(
        jit("fn main() -> i32 { if true { return 42; } else { return 0; }; 0 }").unwrap(),
        42
    );
}

#[test]
fn test_jit_while_with_if_break() {
    // while with a return inside
    assert_eq!(
        jit("fn main() -> i32 { while true { return 42; } }").unwrap(),
        42
    );
}

#[test]
fn test_jit_nested_if() {
    // nested if as expression statement with ;
    assert_eq!(
        jit("fn main() { if true { if false { 1 } else { 2 } }; }").unwrap(),
        0
    );
}

const STRING_MALLOC: &str = r#"extern "C" {
fn malloc(size: usize) -> *mut u8;
fn realloc(ptr: *mut u8, new_size: usize) -> *mut u8;
fn free(ptr: *mut u8);
fn memcpy(dest: *mut u8, src: *const u8, n: usize) -> *mut u8;
}"#;

const STRING_STRUCT: &str = r#"struct String {
ptr: *mut u8,
len: usize,
cap: usize,
}"#;

const STRING_IMPL: &str = "impl String {\n    fn new() -> String {\n        String { ptr: 0 as *mut u8, len: 0, cap: 0 }\n    }\n    fn with_capacity(cap: usize) -> String {\n        let ptr = if cap == 0 { 0 as *mut u8 } else { malloc(cap) };\n        String { ptr: ptr, len: 0, cap: cap }\n    }\n    fn len(&self) -> usize {\n        self.len\n    }\n    fn capacity(&self) -> usize {\n        self.cap\n    }\n    fn is_empty(&self) -> bool {\n        self.len == 0\n    }\n    fn clear(&mut self) {\n        self.len = 0;\n    }\n    fn push_str(&mut self, s: &str) {\n        let new_len = self.len + s.1;\n        if new_len > self.cap {\n            let ptr = malloc(new_len);\n            memcpy(ptr, self.ptr, self.len);\n            if self.cap > 0 {\n                free(self.ptr);\n            };\n            self.ptr = ptr;\n            self.cap = new_len;\n        };\n        memcpy((self.ptr as usize + self.len) as *mut u8, s.0, s.1);\n        self.len = new_len;\n    }\n    fn drop(&mut self) {\n        if self.cap > 0 {\n            free(self.ptr);\n            self.ptr = 0 as *mut u8;\n            self.len = 0;\n            self.cap = 0;\n        };\n    }\n}\n";

fn string_prog(body: &str) -> String {
    format!(
        r#"{} {} {} fn main() {{ {} }}"#,
        STRING_MALLOC, STRING_STRUCT, STRING_IMPL, body
    )
}

#[test]
fn test_jit_string_new() {
    assert_eq!(jit(&string_prog("let s = String::new();")).unwrap(), 0);
}

#[test]
fn test_jit_string_with_capacity() {
    assert_eq!(
        jit(&string_prog("let s = String::with_capacity(10);")).unwrap(),
        0
    );
}

#[test]
fn test_jit_string_len_capacity() {
    assert_eq!(
        jit(&string_prog(
            "let s = String::new(); s.len(); s.capacity();"
        ))
        .unwrap(),
        0
    );
}

#[test]
fn test_jit_string_push_str() {
    assert_eq!(
        jit(&string_prog(
            "let mut s = String::new(); s.push_str(\"hello\");"
        ))
        .unwrap(),
        0
    );
}

#[test]
fn test_jit_string_clear() {
    assert_eq!(
        jit(&string_prog(
            "let mut s = String::with_capacity(10); s.clear();"
        ))
        .unwrap(),
        0
    );
}

#[test]
fn test_jit_string_is_empty() {
    assert_eq!(
        jit(&string_prog("let s = String::new(); s.is_empty();")).unwrap(),
        0
    );
}

#[test]
fn test_jit_same_scope_shadowing() {
    // Same-scope shadowing: let x = 1; let x = x + 1; → x is 2
    assert_eq!(
        jit("fn main() -> i32 { let x = 1; let x = x + 1; x }").unwrap(),
        2
    );
}

#[test]
fn test_jit_if_block_shadowing_restores_outer() {
    // Nested if-block shadowing: outer x must be restored after the block
    assert_eq!(
        jit("fn main() -> i32 { let x = 1; if true { let x = 2; }; x }").unwrap(),
        1
    );
}

#[test]
fn test_jit_loop_block_shadowing_restores_outer() {
    // Nested loop-block shadowing
    assert_eq!(
        jit("fn main() -> i32 { loop { let x = 2; return x; }; 0 }").unwrap(),
        2
    );
}

#[test]
fn test_jit_while_block_shadowing_restores_outer() {
    // Nested while-block shadowing
    assert_eq!(
        jit("fn main() -> i32 { let x = 1; while false { let x = 2; }; x }").unwrap(),
        1
    );
}

#[test]
fn test_jit_if_else_block_shadowing_restores_outer() {
    // Shadowing in else block
    assert_eq!(
        jit("fn main() -> i32 { let x = 1; if false { let x = 2; } else { let x = 3; }; x }")
            .unwrap(),
        1
    );
}

#[test]
fn test_jit_else_if_block_shadowing_restores_outer() {
    // Shadowing in else-if block
    assert_eq!(
        jit("fn main() -> i32 { let x = 1; if false { } else if true { let x = 4; }; x }")
            .unwrap(),
        1
    );
}

#[test]
fn test_jit_shadowing_changes_type() {
    // Shadowing can change type (like Rust)
    assert_eq!(
        jit("fn main() -> i32 { let x = 1; let x = true; x as i32 }").unwrap(),
        1
    );
}

// --- Array slice method tests ---

#[test]
fn test_jit_array_len() {
    // a.len() returns the compile-time length
    assert_eq!(
        jit("fn main() -> usize { let a = [10, 20, 30]; a.len() }").unwrap(),
        3
    );
}

#[test]
fn test_jit_array_len_zero_size() {
    // [0; 0] is rejected by parser, but repeat with positive len works
    assert_eq!(
        jit("fn main() -> usize { let a = [0; 1]; a.len() }").unwrap(),
        1
    );
}

#[test]
fn test_jit_array_len_large() {
    assert_eq!(
        jit("fn main() -> usize { let a = [0; 100]; a.len() }").unwrap(),
        100
    );
}

#[test]
fn test_jit_array_len_different_elem_types() {
    // len() works regardless of element type
    assert_eq!(
        jit("fn main() -> usize { let a = [true, false, true]; a.len() }").unwrap(),
        3
    );
}

#[test]
fn test_jit_array_index_read() {
    // a[i] reads element via slice index intrinsic
    assert_eq!(
        jit("fn main() -> i32 { let a = [10, 20, 30]; a[1] }").unwrap(),
        20
    );
}

#[test]
fn test_jit_array_index_first() {
    assert_eq!(
        jit("fn main() -> i32 { let a = [7, 8, 9]; a[0] }").unwrap(),
        7
    );
}

#[test]
fn test_jit_array_index_last() {
    assert_eq!(
        jit("fn main() -> i32 { let a = [1, 2, 3, 4]; a[3] }").unwrap(),
        4
    );
}

#[test]
fn test_jit_array_index_mut_write() {
    // a[i] = v mutates element via slice index_mut intrinsic
    assert_eq!(
        jit("fn main() -> i32 { let mut a = [10, 20, 30]; a[1] = 99; a[1] }").unwrap(),
        99
    );
}

#[test]
fn test_jit_array_index_mut_then_read_other() {
    assert_eq!(
        jit("fn main() -> i32 { let mut a = [1, 2, 3]; a[2] = 42; a[0] }").unwrap(),
        1
    );
}

#[test]
fn test_jit_nested_array_index() {
    assert_eq!(
        jit("fn main() -> i32 { let a = [[1, 2], [3, 4]]; a[1][0] }").unwrap(),
        3
    );
}

#[test]
fn test_jit_array_float_elements() {
    // Arrays of floats work
    assert_eq!(
        jit("fn main() -> usize { let a = [1.0, 2.0, 3.0]; a.len() }").unwrap(),
        3
    );
}

// --- Slice argument type tests ---

#[test]
fn test_jit_slice_arg_ref_with_variable() {
    // Pass &[i32; N] to a function expecting &[i32]
    assert_eq!(
        jit("fn sum(s: &[i32]) -> i32 { s[0] + s[1] + s[2] } fn main() -> i32 { let a = [10, 20, 30]; sum(&a) }").unwrap(),
        60
    );
}

#[test]
fn test_jit_slice_arg_ref_with_literal() {
    // Pass &[i32; N] literal to a function expecting &[i32]
    assert_eq!(
        jit("fn first(s: &[i32]) -> i32 { s[0] } fn main() -> i32 { first(&[42, 99]) }")
            .unwrap(),
        42
    );
}

#[test]
fn test_jit_slice_arg_val_with_variable() {
    // Pass [i32; N] by value to a function expecting [i32]
    assert_eq!(
        jit("fn sum(s: [i32]) -> i32 { s[0] + s[1] } fn main() -> i32 { let a = [7, 8]; sum(a) }").unwrap(),
        15
    );
}

#[test]
fn test_jit_slice_arg_val_with_literal() {
    // Pass [i32; N] literal to a function expecting [i32]
    assert_eq!(
        jit("fn first(s: [i32]) -> i32 { s[0] } fn main() -> i32 { first([99, 100]) }")
            .unwrap(),
        99
    );
}

#[test]
fn test_jit_slice_arg_len() {
    // .len() on &[i32] parameter
    assert_eq!(
        jit("fn count(s: &[i32]) -> usize { s.len() } fn main() -> usize { count(&[1, 2, 3, 4, 5]) }").unwrap(),
        5
    );
}

#[test]
fn test_jit_slice_arg_val_len() {
    // .len() on [i32] parameter
    assert_eq!(
        jit(
            "fn count(s: [i32]) -> usize { s.len() } fn main() -> usize { count([10, 20, 30]) }"
        )
        .unwrap(),
        3
    );
}

#[test]
fn test_jit_slice_arg_mutate_through_ref() {
    // Mutate elements through &[i32]
    assert_eq!(
        jit("fn set_first(s: &mut [i32]) { s[0] = 77; } fn main() -> i32 { let mut a = [1, 2, 3]; set_first(&mut a); a[0] }").unwrap(),
        77
    );
}

#[test]
fn test_jit_slice_arg_empty_array() {
    // Warning: empty arrays are not supported by the language at present
    // but single-element arrays coerce just fine
    assert_eq!(
        jit("fn first(s: &[i32]) -> i32 { s[0] } fn main() -> i32 { first(&[55]) }").unwrap(),
        55
    );
}

#[test]
fn test_jit_slice_arg_val_multi_element() {
    // Value slice with multiple accesses
    assert_eq!(
        jit("fn sum3(s: [i32]) -> i32 { s[0] + s[1] + s[2] } fn main() -> i32 { sum3([1, 10, 100]) }").unwrap(),
        111
    );
}

#[test]
fn test_jit_block_expr_basic() {
    // Block expression returning value via tail expression
    assert_eq!(
        jit("fn main() -> i32 { let x = { let a = 10; let b = 20; a + b }; x }").unwrap(),
        30
    );
}

#[test]
fn test_jit_block_expr_scope_shadowing() {
    // Inner block shadowing does not affect outer scope
    assert_eq!(
        jit("fn main() -> i32 { let x = 1; let value = { let x = 2; let y = 3; x + y }; x }")
            .unwrap(),
        1
    );
}

#[test]
fn test_jit_block_expr_nested() {
    // Nested block expressions
    assert_eq!(
        jit("fn main() -> i32 { let n = { let a = { let b = 4; b * 2 }; a + 3 }; n }").unwrap(),
        11
    );
}

#[test]
fn test_jit_block_expr_in_let_init() {
    // Block expression as let initializer
    assert_eq!(jit("fn main() -> i32 { let x = { 42 }; x }").unwrap(), 42);
}

#[test]
fn test_jit_block_expr_with_multi_stmts() {
    // Block with multiple let bindings and final expression
    assert_eq!(
        jit("fn main() -> i32 { let r = { let a = 5; let b = 10; let c = 15; a + b + c }; r }")
            .unwrap(),
        30
    );
}

#[test]
fn test_jit_trait_default_method() {
    // Trait default method is used when not overridden
    assert_eq!(
        jit(
            "struct Foo { x: i32, }\ntrait Bar { fn get(&self) -> i32 { 42 } }\nimpl Bar for Foo { }\nfn main() -> i32 { let f = Foo { x: 10 }; f.get() }"
        )
        .unwrap(),
        42
    );
}

#[test]
fn test_jit_trait_default_method_override() {
    // Explicit override takes precedence over default
    assert_eq!(
        jit(
            "struct Foo { x: i32, }\ntrait Bar { fn get(&self) -> i32 { 42 } }\nimpl Bar for Foo { fn get(&self) -> i32 { 99 } }\nfn main() -> i32 { let f = Foo { x: 10 }; f.get() }"
        )
        .unwrap(),
        99
    );
}

#[test]
fn test_jit_trait_default_method_multi() {
    // Mixed: some overridden, some using default
    assert_eq!(
        jit(
            "struct Foo { x: i32, }\ntrait Bar { fn one(&self) -> i32 { 1 } fn two(&self) -> i32 { 2 } }\nimpl Bar for Foo { fn two(&self) -> i32 { 22 } }\nfn main() -> i32 { let f = Foo { x: 0 }; f.one() + f.two() }"
        )
        .unwrap(),
        23
    );
}

#[test]
fn test_jit_block_expr_result_used_in_arithmetic() {
    // Block expression result used in arithmetic
    assert_eq!(
        jit("fn main() -> i32 { let x = 1; let y = { x + 2 } + 3; y }").unwrap(),
        6
    );
}

#[test]
fn test_jit_loop_break() {
    assert_eq!(jit("fn main() { loop { break; }; }").unwrap(), 0);
}

#[test]
fn test_jit_loop_continue() {
    assert_eq!(
        jit(
            "fn main() -> i32 { let mut i = 0; loop { i = i + 1; if i == 10 { break; }; }; i }"
        )
        .unwrap(),
        10
    );
}

#[test]
fn test_jit_while_break() {
    assert_eq!(
        jit(
            "fn main() -> i32 { let mut i = 0; while i < 10 { i = i + 1; if i == 5 { break; }; }; i }"
        )
        .unwrap(),
        5
    );
}

#[test]
fn test_jit_while_continue() {
    assert_eq!(
        jit(
            "fn main() -> i32 { let mut i = 0; let mut count = 0; while i < 5 { i = i + 1; if i == 3 { continue; }; count = count + 1; }; count }"
        )
        .unwrap(),
        4
    );
}

#[test]
fn test_jit_break_outside_loop_errors() {
    let result = jit("fn main() { break; }");
    assert!(result.is_err());
    let err = result.unwrap_err();
    assert!(
        err.msg.contains("outside"),
        "expected 'outside' in error message, got: {}",
        err.msg
    );
}

#[test]
fn test_jit_continue_outside_loop_errors() {
    let result = jit("fn main() { continue; }");
    assert!(result.is_err());
    let err = result.unwrap_err();
    assert!(
        err.msg.contains("outside"),
        "expected 'outside' in error message, got: {}",
        err.msg
    );
}

#[test]
fn test_jit_nested_break_breaks_inner() {
    assert_eq!(
        jit(
            "fn main() -> i32 { let mut x = 0; loop { loop { x = 1; break; }; x = 2; break; }; x }"
        )
        .unwrap(),
        2
    );
}

#[test]
fn test_jit_loop_expression_i32() {
    assert_eq!(
        jit("fn main() -> i32 { let x = loop { break 42; }; x }").unwrap(),
        42
    );
}

#[test]
fn test_jit_loop_expression_nested() {
    assert_eq!(
        jit(
            "fn main() -> i32 { let x = loop { let y = loop { break 100; }; break y + 5; }; x }"
        )
        .unwrap(),
        105
    );
}

#[test]
fn test_jit_loop_expression_mismatch_error() {
    let result = jit("fn main() -> i32 { loop { if true { break 1; } else { break; }; }; 0 }");
    assert!(result.is_err());
    let err = result.unwrap_err();
    assert!(err.msg.contains("mismatched types"));
}

#[test]
fn test_jit_while_break_with_value_error() {
    let result = jit("fn main() { let mut i = 0; while i < 5 { break 1; }; }");
    assert!(result.is_err());
    let err = result.unwrap_err();
    assert!(err.msg.contains("can only break with a value"));
}

/// The message of the error that a program gives.
fn error_of(src: &str) -> String {
    match compiled(src) {
        Ok(_) => panic!("compiled: {}", src),
        Err(e) => e.message(),
    }
}

#[test]
fn variables_are_checked() {
    assert_eq!(error_of("fn main() { let y = x; }"), "undefined variable 'x'");
    assert_eq!(error_of("fn main() { x = 1; }"), "undefined variable 'x'");
    assert_eq!(
        error_of("fn main() { let x = 1; x = 2; }"),
        "cannot assign to immutable variable 'x'"
    );
    assert_eq!(error_of("fn main() { const X = 1; X = 2; }"), "cannot assign to constant 'X'");
    assert_eq!(error_of("fn main() { 1 = 2; }"), "invalid assignment target");
    let e = compiled("fn main() { let y = x; }").err().unwrap();
    assert_eq!(e.span.map(|s| (s.lo, s.hi)).unwrap().0, 20);
}

#[test]
fn moved_variables_cannot_be_used() {
    let head = "struct P { x: i32, } fn take(p: P) -> i32 { p.x } ";
    let src = format!("{}fn main() {{ let p = P {{ x: 1 }}; take(p); let q = p; }}", head);
    assert_eq!(error_of(&src), "cannot use moved variable 'p'");
    let src = format!("{}fn main() {{ let p = P {{ x: 1 }}; let q = p; let r = p; }}", head);
    assert_eq!(error_of(&src), "cannot use moved variable 'p'");
    assert_eq!(jit("fn main() -> i32 { let a = 20; let b = a; a + b + 2 }").unwrap(), 42);
    assert_eq!(
        jit("#[derive(Clone, Copy)]\nstruct P { x: i32, } fn take(p: P) -> i32 { p.x } fn main() -> i32 { let p = P { x: 21 }; take(p) + take(p) }").unwrap(),
        42
    );
}

#[test]
fn scopes_forget_their_variables() {
    assert_eq!(error_of("fn main() { { let x = 1; } let y = x; }"), "undefined variable 'x'");
    assert_eq!(
        error_of("fn main() { if true { let x = 1; } let y = x; }"),
        "undefined variable 'x'"
    );
    assert_eq!(
        jit("fn main() -> i32 { let x = 1; { let x = 2; } x }").unwrap(),
        1
    );
}

#[test]
fn loops_are_checked() {
    assert_eq!(error_of("fn main() { break; }"), "cannot use `break` outside of a loop");
    assert_eq!(error_of("fn main() { continue; }"), "cannot use `continue` outside of a loop");
    assert_eq!(
        error_of("fn main() { while true { break 1; } }"),
        "can only break with a value inside `loop`"
    );
    assert_eq!(error_of("fn main() { while 1 { } }"), "while condition must be bool, found I32");
    assert_eq!(
        error_of("struct P { x: i32, } fn main() { let p = P { x: 1 }; for x in p { } }"),
        "type Struct(\"P\") does not implement IntoIterator or Iterator"
    );
    assert_eq!(
        jit("fn main() -> i32 { let mut n = 0; while n < 10 { n = n + 1; if n == 7 { break; } } n }")
            .unwrap(),
        7
    );
}

#[test]
fn calls_are_checked() {
    assert_eq!(error_of("fn main() { f(); }"), "unknown function 'f'");
    assert_eq!(error_of("fn main() { m::f(); }"), "unknown function 'm::f'");
    assert_eq!(
        error_of("struct P { x: i32, } fn main() { let p = P { x: 1 }; p.f(); }"),
        "type 'P' has no method 'f'"
    );
    assert_eq!(
        error_of("struct P { x: i32, } fn main() { let p = P { x: 1 }; let y = p.z; }"),
        "struct 'P' has no field 'z'"
    );
    assert_eq!(error_of("fn main() { let x = 1; let y = x[0]; }"), "cannot index into non-array type I32");
}

#[test]
fn constants_are_computed() {
    assert_eq!(
        jit("fn main() -> i32 { const A = 6; const B = A * 8 - 12 / 2; B }").unwrap(),
        42
    );
    assert_eq!(
        error_of("fn main() { const A = 1 / 0; }"),
        "division by zero in const expression"
    );
    assert_eq!(
        error_of("fn main() { const A = 1 + true; }"),
        "type mismatch in const expression"
    );
    assert_eq!(error_of("fn main() { const A = B; }"), "undefined constant 'B'");
    assert_eq!(
        error_of("fn main() { const A = true + true; }"),
        "invalid operators on bool constants"
    );
    assert_eq!(error_of("fn main() { const A = -true; }"), "invalid operand for unary minus");
    assert_eq!(
        error_of("fn main() { const A = m::f(1); }"),
        "function calls are not supported in const initializers"
    );
    assert_eq!(
        error_of("fn main() { const A = m::f(); }"),
        "undefined associated constant 'm::f'"
    );
    assert_eq!(
        error_of("fn main() { const A = \"x\"; }"),
        "string literals are not supported in const initializers"
    );
    assert_eq!(
        error_of("fn main() { const A = (B, -1); }"),
        "expression not supported in const initializers: Tuple([Ident(\"B\", Span { lo: 23, hi: 24 }), \
         UnaryMinus(IntLit(1, Span { lo: 27, hi: 28 }), Span { lo: 26, hi: 27 })], \
         Span { lo: 22, hi: 23 })"
    );
}

#[test]
fn questions_on_floats_are_left_and_answered() {
    let src = "fn main() -> i32 { const A = 2.5 * 2.0; const B = A as i32; B }";
    let program = Parser::new(src).program();
    let mut again = CodeGen::new_native(src.to_string(), "<test>".to_string());
    let mut cg = again.copied();
    assert!(cg.compile_module(&program).is_err());
    assert!(matches!(cg.env.pending, Some(ulang::state::FloatQuestion::ToInt(_))));
    again.answer(cg.env.pending.take(), 5);
    assert!(again.compile_module(&program).is_ok());
    assert!(again.env.pending.is_none());
    let ir = again.emit_ir().unwrap();
    assert!(ir.contains("ret i32 5"), "{}", ir);
}

#[test]
fn conditions_are_checked() {
    assert_eq!(error_of("fn main() { if 1 { } }"), "if condition must be bool, found I32");
    assert_eq!(
        error_of("fn main() { let x = -(); }"),
        "unary - requires numeric operand"
    );
    assert_eq!(
        error_of("fn main() { let x: i32 = match 1 { A::B => 1, _ => 2, }; }"),
        "cannot pattern-match on type I32"
    );
}

#[test]
fn derives_are_checked() {
    assert_eq!(
        error_of("#[derive(Drop)]\nstruct P { x: i32, } fn main() { }"),
        "cannot derive Drop for struct 'P', use impl Drop"
    );
    assert_eq!(
        error_of("#[derive(Foo)]\nstruct P { x: i32, } fn main() { }"),
        "cannot derive unknown trait 'Foo' for struct 'P'"
    );
    assert_eq!(
        error_of("#[derive(Copy)]\nstruct P { x: i32, } fn main() { }"),
        "cannot derive Copy for struct 'P': Copy requires Clone to be implemented or derived"
    );
    assert_eq!(
        error_of("#[inline]\nstruct P { x: i32, } fn main() { }"),
        "attribute `inline` can only be marked on functions"
    );
    assert_eq!(
        error_of("#[inline(sometimes)]\nfn main() { }"),
        "invalid 'inline' attribute argument: expected 'always' or 'never', found 'sometimes'"
    );
    assert_eq!(
        error_of("#[inline(always)]\n#[inline(never)]\nfn main() { }"),
        "conflicting 'inline' attributes"
    );
}

#[test]
fn derived_code_runs() {
    let head = "#[derive(Clone, Eq, Default)]\nstruct P { x: i32, y: i32, } ";
    let src = format!(
        "{}fn main() -> i32 {{ let a = P {{ x: 1, y: 2 }}; let b = a.clone(); if a == b {{ b.y + 40 }} else {{ 0 }} }}",
        head
    );
    assert_eq!(jit(&src).unwrap(), 42);
    let src = format!("{}fn main() -> i32 {{ let a: P = P::default(); a.x + a.y }}", head);
    assert_eq!(jit(&src).unwrap(), 0);
}

#[test]
fn instances_are_made_once() {
    let src = "struct B<T> { v: T, } impl<T> B<T> { fn get(&self) -> T { self.v } } \
               fn main() -> i32 { let a: B<i32> = B { v: 40 }; let b: B<i32> = B { v: 2 }; a.get() + b.get() }";
    let cg = compiled(src).unwrap();
    let methods: Vec<&String> = cg.out.fn_order.iter().filter(|n| n.starts_with("B__i32::")).collect();
    assert_eq!(methods.len(), 1);
    assert_eq!(jit(src).unwrap(), 42);
}

#[test]
fn every_declaration_is_listed_once() {
    let cg = compiled("fn f() -> i32 { 1 } fn g() -> i32 { f() } fn main() -> i32 { g() }").unwrap();
    let mut names = cg.out.fn_order.clone();
    let n = names.len();
    names.sort();
    names.dedup();
    assert_eq!(names.len(), n);
    for f in ["f", "g", "main"] {
        assert!(cg.out.fn_order.iter().any(|x| x == f));
        assert!(cg.out.bodies.contains_key(f));
        assert!(cg.out.decls.contains_key(f));
    }
}

#[test]
fn code_is_written_as_llvm_writes_it() {
    let ir = compiled("fn add(a: i32, b: i32) -> i32 { a + b } fn main() -> i32 { add(40, 2) }")
        .unwrap()
        .emit_ir()
        .unwrap();
    assert!(ir.contains("define i32 @add(i32 %a0, i32 %a1)"), "{}", ir);
    assert!(ir.contains("call i32 @add(i32 40, i32 2)"), "{}", ir);
    assert!(ir.starts_with("; ModuleID = 'ulang'"), "{}", ir);
}

const LOGGED: &str = "struct D { log: &mut i32, n: i32, } \
    impl Drop for D { fn drop(&self) { *self.log = *self.log * 10 + self.n; } } ";

#[test]
fn drops_run_in_reverse_before_the_return() {
    let src = "#[inline(always)] fn f(p: &mut i32, q: &mut i32) -> i32 { \
                   let a = D { log: p, n: 1 }; let b = D { log: q, n: 2 }; 5 } \
               fn main() -> i32 { let mut log = 0; let r = f(&mut log, &mut log); log * 10 + r }";
    assert_eq!(jit(&format!("{}{}", LOGGED, src)).unwrap(), 215);
    let src = "#[inline(always)] fn f(p: &mut i32, q: &mut i32, early: bool) -> i32 { let a = D { log: p, n: 1 }; \
                   if early { let b = D { log: q, n: 2 }; return 5; } 6 } \
               fn main() -> i32 { let mut x = 0; let mut y = 0; let r = f(&mut x, &mut x, true); \
                   let t = f(&mut y, &mut y, false); x * 1000 + y * 100 + r * 10 + t }";
    assert_eq!(jit(&format!("{}{}", LOGGED, src)).unwrap(), 21156);
}

#[test]
fn drops_run_where_a_loop_is_left() {
    let src = "#[inline(always)] fn f(p: &mut i32, q: &mut i32) { \
                   loop { let d = D { log: p, n: 1 }; if true { let e = D { log: q, n: 2 }; break; } } } \
               #[inline(always)] fn g(p: &mut i32) { let mut n = 4; \
                   while n < 6 { n = n + 1; let d = D { log: p, n: n }; if n == 5 { continue; } } } \
               fn main() -> i32 { let mut log = 0; f(&mut log, &mut log); g(&mut log); log }";
    assert_eq!(jit(&format!("{}{}", LOGGED, src)).unwrap(), 2156);
}

#[test]
fn what_is_moved_away_is_not_dropped() {
    let src = "fn take(d: D) -> i32 { d.n } \
               fn f(p: &mut i32) -> i32 { let a = D { log: p, n: 7 }; take(a) } \
               fn main() -> i32 { let mut log = 0; let r = f(&mut log); log * 10 + r }";
    assert_eq!(jit(&format!("{}{}", LOGGED, src)).unwrap(), 77);
    let src = "fn make(p: &mut i32) -> D { let a = D { log: p, n: 3 }; a } \
               fn main() -> i32 { let mut log = 0; { let d = make(&mut log); } log }";
    assert_eq!(jit(&format!("{}{}", LOGGED, src)).unwrap(), 3);
}

#[test]
fn what_was_put_elsewhere_is_dropped_there_once() {
    let src = "struct S { d: D, } fn f(p: &mut i32) -> i32 { let a = D { log: p, n: 3 }; \
                   let s = S { d: a }; a.n } \
               fn main() -> i32 { let mut log = 0; let r = f(&mut log); log * 10 + r }";
    assert_eq!(jit(&format!("{}{}", LOGGED, src)).unwrap(), 33);
}

#[test]
fn returned_values_have_the_declared_type() {
    assert_eq!(jit("fn f() -> i64 { 42 } fn main() -> i32 { f() as i32 }").unwrap(), 42);
    assert_eq!(jit("fn f() -> i64 { return 42; } fn main() -> i32 { f() as i32 }").unwrap(), 42);
    assert_eq!(
        jit("fn sum(a: i32, b: i32) -> i64 { a + b } fn main() -> i32 { sum(40, 2) as i32 }").unwrap(),
        42
    );
    assert_eq!(jit("fn g() -> u8 { 200 } fn main() -> i32 { g() as u32 as i32 }").unwrap(), 200);
    assert_eq!(
        jit("fn f() -> [i32; 3] { [1, 42, 3] } fn main() -> i32 { let a = f(); a[1] }").unwrap(),
        42
    );
    assert_eq!(
        jit("fn half(x: f64) -> f64 { x / 2.0 } fn main() -> i32 { half(84.0) as i32 }").unwrap(),
        42
    );
    // LLVM shows the eight bits as a signed number.
    assert_eq!(jit("fn main() -> u8 { 200 }").unwrap(), 200 - 256);
}

#[test]
fn payloads_have_the_declared_type() {
    let src = "enum E { A(i64), B, } \
               fn main() -> i32 { let e = E::A(42); match e { E::A(x) => x as i32, _ => 0, } }";
    assert_eq!(jit(src).unwrap(), 42);
}

#[test]
fn guards_see_what_their_patterns_bind() {
    let src = "enum E { A(i32), B, } fn f(e: E) -> i32 { \
                   match e { E::A(x) if x > 10 => x, E::A(y) => y + 100, _ => 0, } } \
               fn main() -> i32 { f(E::A(42)) * 1000 + f(E::A(7)) }";
    assert_eq!(jit(src).unwrap(), 42107);
}

#[test]
fn instances_do_not_see_the_loops_around_them() {
    let src = "struct B<T> { v: T, } impl<T> B<T> { fn get(&self) -> T { break; self.v } } \
               fn main() -> i32 { while true { let b: B<i32> = B { v: 1 }; b.get(); } 0 }";
    assert_eq!(error_of(src), "cannot use `break` outside of a loop");
}

#[test]
fn copied_types_have_no_drop() {
    let head = "#[derive(Clone, Copy)]\nstruct P { x: i32, } ";
    let src = format!("{}impl Drop for P {{ fn drop(&self) {{ }} }} fn main() {{ }}", head);
    assert!(error_of(&src).contains("'P'"), "{}", error_of(&src));
    let mut cg = CodeGen::new_native(String::new(), String::new());
    cg.compile_module(&Parser::new(&format!("{}fn f() {{ }}", head)).program()).unwrap();
    let later = "impl Drop for P { fn drop(&self) { } } fn g() { }";
    let e = cg.compile_module(&Parser::new(later).program()).err().unwrap();
    assert_eq!(e.message(), error_of(&src));
}

#[test]
fn fields_of_instances_are_laid_out() {
    let src = "struct B<T> { n: i32, v: T, } fn main() -> i32 { 0 }";
    let mut cg = compiled(src).unwrap();
    cg.ensure_monomorphized(8, "B", &vec![Type::Bool]).unwrap();
    let fields = cg.env.struct_fields.get("B__bool").unwrap();
    let shown: Vec<(String, Type)> = fields.iter().map(|f| (f.name.clone(), f.ty.clone())).collect();
    assert_eq!(shown, vec![("n".to_string(), Type::I32), ("v".to_string(), Type::Bool)]);
}

#[test]
fn trait_methods_stand_with_their_types() {
    let src = "trait Show_It { fn show_it(&self) -> i32; } struct P { x: i32, } \
               impl Show_It for P { fn show_it(&self) -> i32 { self.x } } fn main() { }";
    let mut program = Parser::new(src).program();
    program.structs[0].name = "my_mod::P".to_string();
    program.impls[0].impl_type = Type::Struct("my_mod::P".to_string());
    let mut cg = CodeGen::new_native(String::new(), String::new());
    cg.compile_module(&program).unwrap();
    let symbol = cg.out.fn_order.iter().find(|n| n.contains("show_it")).unwrap().clone();
    assert_eq!(cg.env.module_of_item(&symbol), vec!["my_mod".to_string()]);
}

#[test]
fn integers_of_each_width_wrap_as_declared() {
    assert_eq!(jit("fn main() -> i32 { let x = 300 as u8; x as i32 }").unwrap(), 44);
    assert_eq!(jit("fn main() -> i32 { let x = 200u8; let y = 100u8; let z = x + y; z as i32 }").unwrap(), 44);
    assert_eq!(jit("fn main() -> i32 { let x = 7; let y = 2; x / y }").unwrap(), 3);
    assert_eq!(jit("fn main() -> i32 { let x = -7; let y = 2; x / y }").unwrap(), -3);
}

#[test]
fn instances_are_found_once() {
    let src = "struct B<T> { v: T, } fn f(a: B<i32>, b: &B<i32>) { let c: B<bool> = B { v: true }; } \
               fn g(a: B<i32>) { } fn main() { }";
    let program = Parser::new(src).program();
    let found = ulang::collect::collect_generic_instances(&program);
    let names: Vec<String> =
        found.iter().map(|(base, args)| ulang::names::mangle_generic_instance(base, args)).collect();
    assert_eq!(names, vec!["B__i32".to_string(), "B__bool".to_string()]);
}

#[test]
fn functions_are_resolved_by_their_names_first() {
    let cg = compiled("fn f() -> i32 { 1 } fn main() -> i32 { f() }").unwrap();
    assert_eq!(cg.resolve_function("f", &vec![]), Some("f".to_string()));
    assert_eq!(cg.resolve_function("f", &vec![Type::Bool]), Some("f".to_string()));
    assert_eq!(cg.resolve_function("g", &vec![]), None);
}

#[test]
fn what_is_copied() {
    let cg = compiled("struct P { x: i32, } fn main() { }").unwrap();
    let plain = Type::Struct("P".to_string());
    assert!(!cg.env.is_copy_type(&plain));
    assert!(cg.env.is_copy_type(&Type::I32));
    assert!(cg.env.is_copy_type(&Type::Ref { inner: Box::new(plain.clone()), is_mut: true }));
    assert!(cg.env.is_copy_type(&Type::Array { inner: Box::new(Type::Bool), len: 3 }));
    assert!(!cg.env.is_copy_type(&Type::Array { inner: Box::new(plain.clone()), len: 3 }));
    assert!(cg.env.is_copy_type(&Type::Tuple(vec![Type::I8, Type::Unit])));
    assert!(!cg.env.is_copy_type(&Type::Tuple(vec![Type::I8, plain])));
}

#[test]
fn modules_see_what_is_theirs() {
    let mut cg = CodeGen::new_native(String::new(), String::new());
    cg.env.visibility.insert("a::f".to_string(), false);
    cg.env.visibility.insert("a::g".to_string(), true);
    let path = |p: &[&str]| p.iter().map(|x| x.to_string()).collect::<Vec<String>>();
    assert!(cg.env.check_visibility_of_path(&path(&["a"]), "a::f").is_ok());
    assert!(cg.env.check_visibility_of_path(&path(&["a", "b"]), "a::f").is_ok());
    assert!(cg.env.check_visibility_of_path(&path(&["b"]), "a::g").is_ok());
    assert_eq!(
        cg.env.check_visibility_of_path(&path(&["b"]), "a::f").err().unwrap().message(),
        "error: 'a::f' is private and cannot be accessed from module 'b'"
    );
}

#[test]
fn what_is_nested_too_deeply_is_refused() {
    let program = Parser::new("fn main() -> i32 { 1 }").program();
    let mut cg = CodeGen::new_native(String::new(), String::new());
    let e = cg.compile_program(0, &program).err().unwrap();
    assert_eq!(e.message(), "internal: the program is nested too deeply");
    let mut cg = CodeGen::new_native(String::new(), String::new());
    assert!(cg.compile_program(3, &program).is_ok());
}

#[test]
fn a_value_keeps_its_machine_type() {
    let mut cg = CodeGen::new_native(String::new(), String::new());
    let seven = ulang::builder::mk_int(32, 7);
    let same = cg.emit_cast(&seven, &Type::I32, &Type::U32).unwrap();
    assert_eq!(format!("{:?}", same), format!("{:?}", seven));
    let never = cg.emit_cast(&seven, &Type::Never, &Type::I64).unwrap();
    assert!(matches!(never.op, ulang::ir::Operand::Undef));
}

#[test]
fn expectations_are_undone() {
    let mut cg = CodeGen::new_native(String::new(), String::new());
    let ty = Type::GenericInstance("B".to_string(), vec![Type::I32]);
    let saved = cg.expect_type(&ty);
    assert!(cg.fun.mono_names.contains_key("B"));
    cg.unexpect(&saved);
    assert!(!cg.fun.mono_names.contains_key("B"));
    cg.enter_scope();
    assert_eq!(cg.fun.scopes.len(), 1);
    assert!(cg.exit_scope(9).is_ok());
    assert_eq!(cg.fun.scopes.len(), 0);
}

#[test]
fn struct_literals_go_by_the_names_of_fields() {
    let head = "struct Point { x: i32, y: i32, } ";
    let src = format!("{}fn main() -> i32 {{ let p = Point {{ y: 20, x: 10 }}; p.x }}", head);
    assert_eq!(jit(&src).unwrap(), 10);
    let src = format!("{}fn main() -> i32 {{ let p = Point {{ y: 20, x: 10 }}; p.y }}", head);
    assert_eq!(jit(&src).unwrap(), 20);
    let src = format!("{}fn main() {{ let p = Point {{ x: 1, z: 2 }}; }}", head);
    assert_eq!(error_of(&src), "struct 'Point' has no field 'z'");
}

#[test]
fn unsigned_values_are_ordered_as_unsigned() {
    assert_eq!(
        jit("fn main() -> i32 { let a: u8 = 200; let b: u8 = 100; a.cmp(&b) }").unwrap(),
        1
    );
    assert_eq!(
        jit("fn main() -> i32 { let a: i8 = -3; let b: i8 = 100; a.cmp(&b) }").unwrap(),
        -1
    );
    assert_eq!(jit("fn main() -> i32 { let a = true; let b = false; a.cmp(&b) }").unwrap(), 1);
    assert_eq!(
        jit("fn main() -> i32 { let a: u8 = 200; let b: u8 = 100; if a > b { 1 } else { 2 } }")
            .unwrap(),
        1
    );
}

#[test]
fn methods_of_primitive_types_have_their_code() {
    let src = "impl i32 { fn double(&self) -> i32 { *self * 2 } } \
               fn main() -> i32 { let x = 21; x.double() }";
    let cg = compiled(src).unwrap();
    assert!(cg.out.bodies.contains_key("i32::double/1"));
    assert_eq!(jit(src).unwrap(), 42);
}

#[test]
fn provided_methods_have_their_code() {
    let src = "trait Show { fn one(&self) -> i32; fn two(&self) -> i32 { 2 } } \
               struct P { x: i32, } impl Show for P { fn one(&self) -> i32 { self.x } } \
               impl Show for bool { fn one(&self) -> i32 { 1 } } \
               fn main() -> i32 { let p = P { x: 40 }; p.one() + p.two() }";
    let cg = compiled(src).unwrap();
    for f in ["__trait_Show_one_P", "__trait_Show_two_P", "__trait_Show_one_bool", "__trait_Show_two_bool"] {
        assert!(cg.out.bodies.contains_key(f), "{}", f);
    }
    assert_eq!(jit(src).unwrap(), 42);
}

#[test]
fn casts_that_make_no_sense_are_refused() {
    let mut cg = CodeGen::new_native(String::new(), String::new());
    let seven = ulang::builder::mk_int(32, 7);
    let mut refused = |to: Type| {
        cg.emit_cast(&seven, &Type::I32, &to).err().map(|e| e.message()).unwrap_or_default()
    };
    assert_eq!(refused(Type::ImplTrait(vec![])), "cannot cast to impl Trait type");
    assert_eq!(refused(Type::Unit), "cannot cast to tuple or unit type");
    assert_eq!(refused(Type::Str), "cannot cast to string type");
    assert_eq!(refused(Type::SelfType), "cannot cast to Self type");
    assert_eq!(refused(Type::Infer), "cannot cast to inferred type");
    assert_eq!(refused(Type::Never), "cast to never type is not allowed");
    assert_eq!(refused(Type::Struct("P".to_string())), "cannot cast to struct type");
    assert_eq!(
        refused(Type::Array { inner: Box::new(Type::I32), len: 2 }),
        "cannot cast to array type"
    );
    assert_eq!(
        refused(Type::Slice { inner: Box::new(Type::I32) }),
        "cannot cast to slice or generic array type"
    );
    assert_eq!(
        refused(Type::Ref { inner: Box::new(Type::I32), is_mut: false }),
        "cannot cast to reference type"
    );
}

#[test]
fn arrays_become_slices() {
    let mut cg = CodeGen::new_native(String::new(), String::new());
    let array = Type::Array { inner: Box::new(Type::I32), len: 3 };
    let slice = Type::Ref { inner: Box::new(Type::Slice { inner: Box::new(Type::I32) }), is_mut: false };
    let behind = Type::Ref { inner: Box::new(array), is_mut: false };
    let p = ulang::ir::Val { op: ulang::ir::Operand::Null, ty: ulang::ir::LTy::Ptr };
    let fat = cg.emit_cast(&p, &behind, &slice).unwrap();
    assert_eq!(format!("{:?}", fat.ty), format!("{:?}", ulang::builder::fat_ptr_type()));
    assert_eq!(
        jit("fn first(s: &[i32]) -> i32 { s[0] } fn main() -> i32 { let a = [42, 1, 2]; first(&a as &[i32]) }").unwrap(),
        42
    );
}

#[test]
fn all_instances_of_a_program_are_found() {
    let src = "struct B<T> { v: T, } struct C<T> { v: T, } \
               fn f() { { let a: B<C<i32>> = g(); } let x = h() as C<u8>; } \
               fn generic(a: B<T>, b: B<C<T>>) { } fn main() { }";
    let program = Parser::new(src).program();
    let names: Vec<String> = ulang::collect::collect_generic_instances(&program)
        .iter()
        .map(|(base, args)| ulang::names::mangle_generic_instance(base, args))
        .collect();
    assert_eq!(names, vec!["C__i32".to_string(), "B__C__i32".to_string(), "C__u8".to_string()]);
}

#[test]
fn breaks_of_a_loop_are_found_in_order() {
    let src = "fn main() { loop { if a { break 1; } loop { break 2; } f(if b { break 3; }); break true; } }";
    let program = Parser::new(src).program();
    let body = match &program.funcs[0].body.tail_expr {
        Some(e) => match &**e {
            Expr::Loop { body, .. } => body,
            other => panic!("{:?}", other),
        },
        None => panic!("no loop"),
    };
    let mut found = vec![];
    ulang::breaks::find_loop_breaks(body, &mut found);
    let values: Vec<String> = found
        .iter()
        .map(|s| match s {
            Stmt::Break { value: Some(v), .. } => match &**v {
                Expr::IntLit(n, _) => n.to_string(),
                other => format!("{:?}", other)[..7].to_string(),
            },
            other => panic!("{:?}", other),
        })
        .collect();
    assert_eq!(values, vec!["1", "3", "BoolLit"]);
}

#[test]
fn const_parameters_are_replaced_everywhere() {
    let src = "fn main() { let t = (L, P { x: L }, Option::Some(L)); if let 5 = L { L; } }";
    let program = Parser::new(src).program();
    let names = vec!["L".to_string()];
    let b = ulang::subst::m_substitute_const_block(&program.funcs[0].body, &names, &vec![5]);
    let text = format!("{:?}", b);
    assert!(!text.contains("Ident(\"L\""), "{}", text);
    assert_eq!(text.matches("IntLit(5").count(), 6, "{}", text);
}

#[test]
fn casts_are_replaced_at_any_depth() {
    let src = "fn main() { x as T as i64; }";
    let program = Parser::new(src).program();
    let names = vec!["T".to_string()];
    let b = ulang::subst::m_substitute_block(&program.funcs[0].body, &names, &vec![Type::I32]);
    let text = format!("{:?}", b);
    assert!(text.contains("to_type: I32") && text.contains("to_type: I64"), "{}", text);
    assert!(!text.contains("\"T\""), "{}", text);
}

#[test]
fn instances_of_generic_types_have_their_operators() {
    let src = "struct B<T> { v: T, } impl<T> Drop for B<T> { fn drop(&self) { } } \
               fn main() -> i32 { let b: B<i32> = B { v: 42 }; b.v }";
    let ir = compiled(src).unwrap().emit_ir().unwrap();
    assert!(ir.contains("@\"B__i32::drop/1\"("), "{}", ir);
    assert_eq!(jit(src).unwrap(), 42);
}
